//! The tuned evaluation weights, each a pair (middlegame, endgame).

use vstd::prelude::*;

verus! {
/// Piece weights, middlegame and endgame.
pub const PAWN: [i32; 2] = [72, 97];
pub const KNIGHT: [i32; 2] = [327, 323];
pub const BISHOP: [i32; 2] = [346, 347];
pub const ROOK: [i32; 2] = [519, 518];
pub const QUEEN: [i32; 2] = [1029, 1028];
 
/// Bonus for the side to move.
pub const TEMPO: [i32; 2] = [19, 20];

pub const PAWN_MOBILITY: [[i32; 2]; 5] = [
    [3, 5], [2, -2], [0, 1], [2, 0], [-7, -6], 
];
pub const KNIGHT_MOBILITY: [[i32; 2]; 9] = [
    [-8, 4], [1, 0], [-1, -1], [2, 1], [3, 2], [-3, -2], [-1, 0], [-1, 0], 
    [6, 1], 
];
pub const BISHOP_MOBILITY: [[i32; 2]; 14] = [
    [0, 0], [-1, 0], [-43, -35], [-14, -14], [-7, -7], [-6, -6], [1, 0], [2, 0], 
    [-1, 0], [-1, 0], [11, 6], [1, 1], [14, -3], [19, -5], 
];
pub const ROOK_MOBILITY: [[i32; 2]; 15] = [
    [0, 0], [0, 0], [0, 0], [0, 0], [0, 0], [-202, -133], [-16, -15], [1, 0], 
    [-10, -5], [-11, -8], [-12, -9], [-10, -11], [-3, -3], [4, 4], [2, 2], 
];
pub const QUEEN_MOBILITY: [[i32; 2]; 28] = [
    [0, 0], [0, 0], [0, 0], [0, 0], [0, 0], [0, 0], [0, 0], [0, 0], 
    [0, 0], [0, 0], [25, 17], [-10, -10], [-4, -4], [1, 0], [-4, -4], [-1, -1], 
    [-2, -2], [1, 0], [-1, 0], [-5, -4], [-1, 0], [3, 2], [-1, 0], [-1, 0], 
    [-1, 0], [15, 13], [0, 0], [0, 0], 
];
pub const KING_MOBILITY: [[i32; 2]; 9] = [
    [4, 4], [16, -7], [13, -15], [5, -7], [-6, 3], [-3, -4], [-5, 2], [-2, 3], 
    [-1, 2], 
];
pub const VIRTUAL_MOBILITY: [[i32; 2]; 28] = [
    [-1, 0], [10, 10], [11, 12], [11, 8], [8, 5], [11, 5], [3, 4], [2, -2], 
    [-1, -2], [1, -1], [-4, 1], [2, 1], [-20, 3], [-15, 9], [1, -1], [2, 1], 
    [-2, 3], [4, 3], [-1, 2], [-1, 3], [0, 1], [-2, -2], [-7, -8], [-5, -5], 
    [-15, -27], [-20, -20], [0, 1], [-34, -34], 
];

pub const BISHOP_PAIR_BONUS: [i32; 2] = [-1, 0];
pub const PASSED_PAWN_BONUS: [i32; 2] = [11, 22];
pub const PAWN_ISLAND_PENALTY: [i32; 2] = [1, 0];
pub const PAWN_ISOLATION_PENALTY: [i32; 2] = [-12, -12];
pub const ROOK_OPEN_FILE_BONUS: [i32; 2] = [23, 23];
pub const ROOK_SEMI_FILE_BONUS: [i32; 2] = [13, 12];
pub const PAWN_SHIELD_PENALTY: [i32; 2] = [-3, 2];

/// The bonus per own pawn defending a pawn (no tuned weight exists for it).
pub const CONNECTED_PASSED_PAWN: [i32; 2] = [0, 0];

/// The penalty for a king on a file without pawns (no tuned weight exists for it).
pub const KING_ON_OPEN_FILE: [i32; 2] = [0, 0];

/// The penalty for a king on a file without own pawns (no tuned weight exists for it).
pub const KING_ON_SEMI_OPEN_FILE: [i32; 2] = [0, 0];
 
// Piece-square tables, indexed by square from White's side.
pub const P: [[i32; 2]; 64] = [
    [0, 0], [0, 0], [0, 0], [0, 0], [0, 0], [0, 0], [0, 0], [0, 0], 
    [-20, 10], [-11, 10], [-8, 4], [-18, -7], [-3, 2], [20, 7], [18, 19], [-6, -5], 
    [-19, 3], [-11, 3], [-7, -8], [-14, 14], [6, 1], [5, 4], [16, 1], [8, -12], 
    [-17, 12], [-4, 7], [-6, -3], [9, 10], [7, -5], [11, -1], [4, 4], [0, -4], 
    [5, 28], [16, 15], [7, 16], [13, 0], [42, -5], [29, 6], [23, 24], [18, 17], 
    [32, 99], [18, 121], [57, 80], [56, 54], [58, 55], [49, 49], [81, 84], [69, 68], 
    [161, 156], [156, 150], [139, 139], [125, 126], [138, 137], [85, 90], [98, 122], [98, 122], 
    [0, 0], [0, 0], [0, 0], [0, 0], [0, 0], [0, 0], [0, 0], [0, 0]
];
pub const N: [[i32; 2]; 64] = [
    [-84, -73], [-45, -45], [-50, -14], [-39, -29], [-41, -19], [-33, -28], [-47, -32], [-49, -50], 
    [-39, -40], [-33, -22], [-20, -13], [-17, -8], [-19, -4], [1, 0], [-22, -34], [-24, -26], 
    [-41, -32], [-20, 4], [-11, 5], [3, 2], [15, 15], [-11, -1], [-3, -5], [-33, -30], 
    [-22, -23], [1, 0], [15, 15], [10, 22], [15, 27], [14, 16], [19, 10], [-12, -15], 
    [-8, -9], [-3, 9], [27, 22], [24, 24], [22, 22], [54, 30], [14, 14], [12, 1], 
    [-29, -30], [5, 5], [51, 17], [44, 20], [49, 25], [47, 23], [19, 14], [-16, -19], 
    [-28, -27], [4, -5], [20, 6], [0, 0], [10, 5], [37, 13], [0, -5], [-2, -25], 
    [-50, -50], [-40, -40], [-30, -30], [-9, -12], [-10, -15], [-30, -30], [-38, -40], [-50, -50]
];
pub const B: [[i32; 2]; 64] = [
    [-22, -29], [-3, -7], [-12, -12], [-15, -10], [-1, -9], [-13, -13], [7, -16], [-17, -18], 
    [8, -39], [-5, -5], [15, -9], [-8, -6], [0, 3], [9, -1], [12, -11], [-11, -10], 
    [0, -17], [3, 3], [0, 4], [10, -4], [10, 7], [-2, 1], [-6, -3], [0, -4], 
    [-16, -12], [5, 4], [2, 3], [28, 11], [10, 10], [8, 9], [-1, 0], [-10, -12], 
    [-12, -12], [4, 4], [9, 9], [38, 21], [25, 21], [13, 13], [6, 6], [-2, 0], 
    [-9, -1], [8, 1], [17, 6], [37, -6], [25, 8], [5, 5], [15, 15], [29, 5], 
    [-4, -8], [-1, 0], [1, 0], [0, 0], [20, 5], [-7, -5], [-1, 0], [-28, -27], 
    [-19, -20], [-10, -10], [-10, -12], [-10, -10], [-10, -10], [-10, -10], [-10, -10], [-20, -20]
];
pub const R: [[i32; 2]; 64] = [
    [-13, -14], [-12, -3], [-3, -3], [-9, 0], [-6, -2], [-11, -5], [-6, -5], [-4, -4], 
    [-31, -2], [-27, -16], [1, 0], [-19, -6], [-19, -4], [-11, -7], [3, -2], [-26, -23], 
    [-6, -6], [-11, 1], [-25, 1], [-13, -12], [-25, 5], [-14, -9], [-2, -1], [-11, -22], 
    [-40, 8], [-16, 4], [-24, 9], [-3, 5], [2, -1], [1, 0], [6, 2], [0, -3], 
    [-4, -5], [25, -1], [4, 9], [11, 10], [-2, -1], [-1, 0], [6, 4], [24, 0], 
    [1, -1], [13, 20], [20, 16], [15, 11], [-1, 0], [-1, 0], [0, 0], [11, 6], 
    [10, 10], [10, 10], [10, 10], [10, 10], [20, 15], [29, 18], [14, 14], [5, 5], 
    [21, 18], [0, 0], [0, 0], [0, 0], [0, 0], [0, 0], [0, 0], [0, 0]
];
pub const Q: [[i32; 2]; 64] = [
    [-8, -7], [-28, -22], [-17, -16], [-10, -10], [-5, -5], [-10, -10], [-10, -10], [-18, -21], 
    [-28, -27], [-11, -10], [1, 0], [1, 0], [-4, -3], [4, -1], [-19, -15], [-10, -12], 
    [-19, -19], [-8, -3], [-4, 2], [-8, 6], [1, 6], [-1, 4], [4, 3], [-7, -5], 
    [-4, -4], [-10, -1], [-2, 9], [5, 5], [5, 5], [5, 5], [-1, 0], [0, -1], 
    [-5, -5], [2, 2], [7, 6], [17, 22], [5, 5], [23, 23], [-1, 0], [24, 21], 
    [-6, -7], [-3, -2], [6, 5], [5, 5], [5, 5], [74, 71], [0, 0], [0, -1], 
    [-10, -10], [1, 0], [-1, 0], [-1, 0], [44, 43], [36, 33], [5, 5], [22, 20], 
    [-22, -17], [-20, -22], [-9, -10], [-4, -5], [0, -2], [0, -1], [2, -4], [-2, -3]
];
pub const K: [[i32; 2]; 64] = [
    [23, -61], [34, -35], [23, -25], [-72, -17], [-10, -34], [-8, -32], [37, -35], [39, -62], 
    [23, -28], [27, -21], [-6, -6], [-18, -6], [-25, -2], [-7, -8], [30, -16], [26, -35], 
    [6, -23], [-19, -4], [-38, 10], [-39, 12], [-35, 17], [-34, 13], [-16, -7], [-4, -16], 
    [-18, -24], [-27, -5], [-33, 21], [-47, 37], [-44, 38], [-43, 28], [-16, 4], [-12, -18], 
    [-5, -5], [-13, 17], [-46, 29], [-48, 38], [-42, 45], [-39, 32], [-9, 21], [-29, -30], 
    [-16, -4], [-29, 7], [-25, 29], [-38, 40], [-28, 52], [-16, 43], [9, 36], [-17, -18], 
    [-30, -30], [-18, 1], [-29, 2], [-41, 8], [-12, 39], [-4, 32], [43, 40], [-8, -7], 
    [-72, -92], [-47, -48], [-40, -31], [-35, -7], [-43, -18], [-11, -4], [-39, -40], [-28, -52]
];

} // verus!
