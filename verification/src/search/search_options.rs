//! Tunable search parameters, settable by name.

use vstd::prelude::*;
use crate::text::str_eq;

verus! {

/// One search parameter with its new value.
#[derive(Clone, Copy, Debug, PartialEq, Eq, Structural)]
pub enum Options {
    AspirationWindow(i32),
    MaxDepthRfp(i32),
    MultiplierRfp(i32),
    NmpReductionBase(i32),
    NmpXShift(i32),
    NmpYStretch(i32),
    LmrDepthLimit(i32),
    LmrFullSearchedMoveLimit(i32),
    IidDepthMin(i32),
    LmpDepthMax(i32),
    LmpMultiplier(i32),
    HistoryDepthMin(i32),
    HistoryPruneMoveLimit(i32),
    HistoryThreshold(i32),
    HistoryReduction(i32),
}

#[derive(Clone, Copy, Debug, PartialEq, Eq, Structural)]
pub struct SearchOptions {
    pub aspiration_window: i32,
    pub max_depth_rfp: i32,
    pub multiplier_rfp: i32,
    pub nmp_reduction_base: i32,
    pub nmp_xshift: i32,
    pub nmp_ystretch: i32,
    pub lmr_depth_limit: i32,
    pub lmr_full_searched_move_limit: i32,
    pub iid_depth_min: i32,
    pub lmp_depth_max: i32,
    pub lmp_multiplier: i32,
    pub history_depth_min: i32,
    pub history_prune_move_limit: i32,
    pub history_threshold: i32,
    pub history_reduction: i32,
}

pub const ASPIRATION_WINDOW: i32 = 38;
pub const MAX_DEPTH_RFP: i32 = 5;
pub const MULTIPLIER_RFP: i32 = 141;
pub const NMP_REDUCTION_BASE: i32 = 2;
pub const NMP_XSHIFT: i32 = 8;
pub const NMP_YSTRETCH: i32 = 7;
pub const LMR_DEPTH_LIMIT: i32 = 2;
pub const LMR_FULL_SEARCHED_MOVE_LIMIT: i32 = 2;
pub const IID_DEPTH_MIN: i32 = 2;
pub const LMP_DEPTH_MAX: i32 = 10;
pub const LMP_MULTIPLIER: i32 = 9;
pub const HISTORY_DEPTH_MIN: i32 = 4;
pub const HISTORY_PRUNE_MOVE_LIMIT: i32 = 3;
pub const HISTORY_THRESHOLD: i32 = 37;
pub const HISTORY_REDUCTION: i32 = 1;

/// The names that `SearchOptions::get` knows.
pub open spec fn known_option(name: Seq<char>) -> bool {
    name == "AspirationWindow"@
    || name == "MaxDepthRfp"@
    || name == "MultiplierRfp"@
    || name == "NmpReductionBase"@
    || name == "NmpXShift"@
    || name == "NmpYStretch"@
    || name == "LmrDepthLimit"@
    || name == "LmrFullSearchedMoveLimit"@
    || name == "IidDepthMin"@
    || name == "LmpDepthMax"@
    || name == "LmpMultiplier"@
    || name == "HistoryDepthMin"@
    || name == "HistoryPruneMoveLimit"@
    || name == "HistoryThreshold"@
    || name == "HistoryReduction"@
}

/// The option that a name stands for, with its value.
pub open spec fn option_named(name: Seq<char>, v: i32) -> Options {
    if name == "AspirationWindow"@ {
        Options::AspirationWindow(v)
    } else if name == "MaxDepthRfp"@ {
        Options::MaxDepthRfp(v)
    } else if name == "MultiplierRfp"@ {
        Options::MultiplierRfp(v)
    } else if name == "NmpReductionBase"@ {
        Options::NmpReductionBase(v)
    } else if name == "NmpXShift"@ {
        Options::NmpXShift(v)
    } else if name == "NmpYStretch"@ {
        Options::NmpYStretch(v)
    } else if name == "LmrDepthLimit"@ {
        Options::LmrDepthLimit(v)
    } else if name == "LmrFullSearchedMoveLimit"@ {
        Options::LmrFullSearchedMoveLimit(v)
    } else if name == "IidDepthMin"@ {
        Options::IidDepthMin(v)
    } else if name == "LmpDepthMax"@ {
        Options::LmpDepthMax(v)
    } else if name == "LmpMultiplier"@ {
        Options::LmpMultiplier(v)
    } else if name == "HistoryDepthMin"@ {
        Options::HistoryDepthMin(v)
    } else if name == "HistoryPruneMoveLimit"@ {
        Options::HistoryPruneMoveLimit(v)
    } else if name == "HistoryThreshold"@ {
        Options::HistoryThreshold(v)
    } else {
        Options::HistoryReduction(v)
    }
}

impl SearchOptions {
    /// The parameters with the option applied: its field set, the others kept.
    pub open spec fn with_option(self, option: Options) -> SearchOptions {
        match option {
            Options::AspirationWindow(v) => SearchOptions { aspiration_window: v, ..self },
            Options::MaxDepthRfp(v) => SearchOptions { max_depth_rfp: v, ..self },
            Options::MultiplierRfp(v) => SearchOptions { multiplier_rfp: v, ..self },
            Options::NmpReductionBase(v) => SearchOptions { nmp_reduction_base: v, ..self },
            Options::NmpXShift(v) => SearchOptions { nmp_xshift: v, ..self },
            Options::NmpYStretch(v) => SearchOptions { nmp_ystretch: v, ..self },
            Options::LmrDepthLimit(v) => SearchOptions { lmr_depth_limit: v, ..self },
            Options::LmrFullSearchedMoveLimit(v) => SearchOptions { lmr_full_searched_move_limit: v, ..self },
            Options::IidDepthMin(v) => SearchOptions { iid_depth_min: v, ..self },
            Options::LmpDepthMax(v) => SearchOptions { lmp_depth_max: v, ..self },
            Options::LmpMultiplier(v) => SearchOptions { lmp_multiplier: v, ..self },
            Options::HistoryDepthMin(v) => SearchOptions { history_depth_min: v, ..self },
            Options::HistoryPruneMoveLimit(v) => SearchOptions { history_prune_move_limit: v, ..self },
            Options::HistoryThreshold(v) => SearchOptions { history_threshold: v, ..self },
            Options::HistoryReduction(v) => SearchOptions { history_reduction: v, ..self },
        }
    }

    /// The value of the field that a name stands for.
    pub open spec fn field_named(self, name: Seq<char>) -> i32 {
        if name == "AspirationWindow"@ {
            self.aspiration_window
        } else if name == "MaxDepthRfp"@ {
            self.max_depth_rfp
        } else if name == "MultiplierRfp"@ {
            self.multiplier_rfp
        } else if name == "NmpReductionBase"@ {
            self.nmp_reduction_base
        } else if name == "NmpXShift"@ {
            self.nmp_xshift
        } else if name == "NmpYStretch"@ {
            self.nmp_ystretch
        } else if name == "LmrDepthLimit"@ {
            self.lmr_depth_limit
        } else if name == "LmrFullSearchedMoveLimit"@ {
            self.lmr_full_searched_move_limit
        } else if name == "IidDepthMin"@ {
            self.iid_depth_min
        } else if name == "LmpDepthMax"@ {
            self.lmp_depth_max
        } else if name == "LmpMultiplier"@ {
            self.lmp_multiplier
        } else if name == "HistoryDepthMin"@ {
            self.history_depth_min
        } else if name == "HistoryPruneMoveLimit"@ {
            self.history_prune_move_limit
        } else if name == "HistoryThreshold"@ {
            self.history_threshold
        } else {
            self.history_reduction
        }
    }

    /// The default parameters.
    pub fn new() -> (o: SearchOptions)
        ensures
            o.aspiration_window == ASPIRATION_WINDOW,
            o.max_depth_rfp == MAX_DEPTH_RFP,
            o.multiplier_rfp == MULTIPLIER_RFP,
            o.nmp_reduction_base == NMP_REDUCTION_BASE,
            o.nmp_xshift == NMP_XSHIFT,
            o.nmp_ystretch == NMP_YSTRETCH,
            o.lmr_depth_limit == LMR_DEPTH_LIMIT,
            o.lmr_full_searched_move_limit == LMR_FULL_SEARCHED_MOVE_LIMIT,
            o.iid_depth_min == IID_DEPTH_MIN,
            o.lmp_depth_max == LMP_DEPTH_MAX,
            o.lmp_multiplier == LMP_MULTIPLIER,
            o.history_depth_min == HISTORY_DEPTH_MIN,
            o.history_prune_move_limit == HISTORY_PRUNE_MOVE_LIMIT,
            o.history_threshold == HISTORY_THRESHOLD,
            o.history_reduction == HISTORY_REDUCTION,
    {
        SearchOptions {
            aspiration_window: ASPIRATION_WINDOW,
            max_depth_rfp: MAX_DEPTH_RFP,
            multiplier_rfp: MULTIPLIER_RFP,
            nmp_reduction_base: NMP_REDUCTION_BASE,
            nmp_xshift: NMP_XSHIFT,
            nmp_ystretch: NMP_YSTRETCH,
            lmr_depth_limit: LMR_DEPTH_LIMIT,
            lmr_full_searched_move_limit: LMR_FULL_SEARCHED_MOVE_LIMIT,
            iid_depth_min: IID_DEPTH_MIN,
            lmp_depth_max: LMP_DEPTH_MAX,
            lmp_multiplier: LMP_MULTIPLIER,
            history_depth_min: HISTORY_DEPTH_MIN,
            history_prune_move_limit: HISTORY_PRUNE_MOVE_LIMIT,
            history_threshold: HISTORY_THRESHOLD,
            history_reduction: HISTORY_REDUCTION,
        }
    }

    /// The option that `name` stands for, carrying `v`.
    pub fn get(name: &str, v: i32) -> (o: Options)
        requires
            known_option(name@),
        ensures
            o == option_named(name@, v),
    {
        if str_eq(name, "AspirationWindow") {
            Options::AspirationWindow(v)
        } else if str_eq(name, "MaxDepthRfp") {
            Options::MaxDepthRfp(v)
        } else if str_eq(name, "MultiplierRfp") {
            Options::MultiplierRfp(v)
        } else if str_eq(name, "NmpReductionBase") {
            Options::NmpReductionBase(v)
        } else if str_eq(name, "NmpXShift") {
            Options::NmpXShift(v)
        } else if str_eq(name, "NmpYStretch") {
            Options::NmpYStretch(v)
        } else if str_eq(name, "LmrDepthLimit") {
            Options::LmrDepthLimit(v)
        } else if str_eq(name, "LmrFullSearchedMoveLimit") {
            Options::LmrFullSearchedMoveLimit(v)
        } else if str_eq(name, "IidDepthMin") {
            Options::IidDepthMin(v)
        } else if str_eq(name, "LmpDepthMax") {
            Options::LmpDepthMax(v)
        } else if str_eq(name, "LmpMultiplier") {
            Options::LmpMultiplier(v)
        } else if str_eq(name, "HistoryDepthMin") {
            Options::HistoryDepthMin(v)
        } else if str_eq(name, "HistoryPruneMoveLimit") {
            Options::HistoryPruneMoveLimit(v)
        } else if str_eq(name, "HistoryThreshold") {
            Options::HistoryThreshold(v)
        } else {
            proof { reveal_strlit("HistoryReduction"); }
            Options::HistoryReduction(v)
        }
    }

    /// Sets the parameter that the option names.
    pub fn change(&mut self, option: Options)
        ensures
            *final(self) == old(self).with_option(option),
    {
        match option {
            Options::AspirationWindow(v) => self.aspiration_window = v,
            Options::MaxDepthRfp(v) => self.max_depth_rfp = v,
            Options::MultiplierRfp(v) => self.multiplier_rfp = v,
            Options::NmpReductionBase(v) => self.nmp_reduction_base = v,
            Options::NmpXShift(v) => self.nmp_xshift = v,
            Options::NmpYStretch(v) => self.nmp_ystretch = v,
            Options::LmrDepthLimit(v) => self.lmr_depth_limit = v,
            Options::LmrFullSearchedMoveLimit(v) => self.lmr_full_searched_move_limit = v,
            Options::IidDepthMin(v) => self.iid_depth_min = v,
            Options::LmpDepthMax(v) => self.lmp_depth_max = v,
            Options::LmpMultiplier(v) => self.lmp_multiplier = v,
            Options::HistoryDepthMin(v) => self.history_depth_min = v,
            Options::HistoryPruneMoveLimit(v) => self.history_prune_move_limit = v,
            Options::HistoryThreshold(v) => self.history_threshold = v,
            Options::HistoryReduction(v) => self.history_reduction = v,
        }
    }
}

/// Setting a parameter by name and reading it back by that name gives the value,
/// and leaves every parameter of another name as it was.
pub proof fn lemma_change_by_name(opts: SearchOptions, name: Seq<char>, other: Seq<char>, v: i32)
    requires
        known_option(name),
        known_option(other),
        other != name,
    ensures
        opts.with_option(option_named(name, v)).field_named(name) == v,
        opts.with_option(option_named(name, v)).field_named(other) == opts.field_named(other),
{
}

} // verus!
