//! The Zobrist keys of the pawn, non-pawn and material hashes.

use vstd::prelude::*;

verus! {

/// A key per piece kind and square.
pub const BOARD_BY_PIECE_KEYS: [[u64; 64]; 6] = [
        [
            0x9D39247E33776D41u64, 0x2AF7398005AAA5C7u64, 0x44DB015024623547u64, 0x9C15F73E62A76AE2u64,
            0x75834465489C0C89u64, 0x3290AC3A203001BFu64, 0x0FBBAD1F61042279u64, 0xE83A908FF2FB60CAu64,
            0x0D7E765D58755C10u64, 0x1A083822CEAFE02Du64, 0x9605D5F0E25EC3B0u64, 0xD021FF5CD13A2ED5u64,
            0x40BDF15D4A672E32u64, 0x011355146FD56395u64, 0x5DB4832046F3D9E5u64, 0x239F8B2D7FF719CCu64,
            0x05D1A1AE85B49AA1u64, 0x679F848F6E8FC971u64, 0x7449BBFF801FED0Bu64, 0x7D11CDB1C3B7ADF0u64,
            0x82C7709E781EB7CCu64, 0xF3218F1C9510786Cu64, 0x331478F3AF51BBE6u64, 0x4BB38DE5E7219443u64,
            0xAA649C6EBCFD50FCu64, 0x8DBD98A352AFD40Bu64, 0x87D2074B81D79217u64, 0x19F3C751D3E92AE1u64,
            0xB4AB30F062B19ABFu64, 0x7B0500AC42047AC4u64, 0xC9452CA81A09D85Du64, 0x24AA6C514DA27500u64,
            0x4C9F34427501B447u64, 0x14A68FD73C910841u64, 0xA71B9B83461CBD93u64, 0x03488B95B0F1850Fu64,
            0x637B2B34FF93C040u64, 0x09D1BC9A3DD90A94u64, 0x3575668334A1DD3Bu64, 0x735E2B97A4C45A23u64,
            0x18727070F1BD400Bu64, 0x1FCBACD259BF02E7u64, 0xD310A7C2CE9B6555u64, 0xBF983FE0FE5D8244u64,
            0x9F74D14F7454A824u64, 0x51EBDC4AB9BA3035u64, 0x5C82C505DB9AB0FAu64, 0xFCF7FE8A3430B241u64,
            0x3253A729B9BA3DDEu64, 0x8C74C368081B3075u64, 0xB9BC6C87167C33E7u64, 0x7EF48F2B83024E20u64,
            0x11D505D4C351BD7Fu64, 0x6568FCA92C76A243u64, 0x4DE0B0F40F32A7B8u64, 0x96D693460CC37E5Du64,
            0x42E240CB63689F2Fu64, 0x6D2BDCDAE2919661u64, 0x42880B0236E4D951u64, 0x5F0F4A5898171BB6u64,
            0x39F890F579F92F88u64, 0x93C5B5F47356388Bu64, 0x63DC359D8D231B78u64, 0xEC16CA8AEA98AD76u64,
        ],
        [
            0x5355F900C2A82DC7u64, 0x07FB9F855A997142u64, 0x5093417AA8A7ED5Eu64, 0x7BCBC38DA25A7F3Cu64,
            0x19FC8A768CF4B6D4u64, 0x637A7780DECFC0D9u64, 0x8249A47AEE0E41F7u64, 0x79AD695501E7D1E8u64,
            0x14ACBAF4777D5776u64, 0xF145B6BECCDEA195u64, 0xDABF2AC8201752FCu64, 0x24C3C94DF9C8D3F6u64,
            0xBB6E2924F03912EAu64, 0x0CE26C0B95C980D9u64, 0xA49CD132BFBF7CC4u64, 0xE99D662AF4243939u64,
            0x27E6AD7891165C3Fu64, 0x8535F040B9744FF1u64, 0x54B3F4FA5F40D873u64, 0x72B12C32127FED2Bu64,
            0xEE954D3C7B411F47u64, 0x9A85AC909A24EAA1u64, 0x70AC4CD9F04F21F5u64, 0xF9B89D3E99A075C2u64,
            0x87B3E2B2B5C907B1u64, 0xA366E5B8C54F48B8u64, 0xAE4A9346CC3F7CF2u64, 0x1920C04D47267BBDu64,
            0x87BF02C6B49E2AE9u64, 0x092237AC237F3859u64, 0xFF07F64EF8ED14D0u64, 0x8DE8DCA9F03CC54Eu64,
            0x9C1633264DB49C89u64, 0xB3F22C3D0B0B38EDu64, 0x390E5FB44D01144Bu64, 0x5BFEA5B4712768E9u64,
            0x1E1032911FA78984u64, 0x9A74ACB964E78CB3u64, 0x4F80F7A035DAFB04u64, 0x6304D09A0B3738C4u64,
            0x2171E64683023A08u64, 0x5B9B63EB9CEFF80Cu64, 0x506AACF489889342u64, 0x1881AFC9A3A701D6u64,
            0x6503080440750644u64, 0xDFD395339CDBF4A7u64, 0xEF927DBCF00C20F2u64, 0x7B32F7D1E03680ECu64,
            0xB9FD7620E7316243u64, 0x05A7E8A57DB91B77u64, 0xB5889C6E15630A75u64, 0x4A750A09CE9573F7u64,
            0xCF464CEC899A2F8Au64, 0xF538639CE705B824u64, 0x3C79A0FF5580EF7Fu64, 0xEDE6C87F8477609Du64,
            0x799E81F05BC93F31u64, 0x86536B8CF3428A8Cu64, 0x97D7374C60087B73u64, 0xA246637CFF328532u64,
            0x043FCAE60CC0EBA0u64, 0x920E449535DD359Eu64, 0x70EB093B15B290CCu64, 0x73A1921916591CBDu64,
        ],
        [
            0xA3F1C2D4B5E69807u64, 0x1C2D3E4F50617283u64, 0x9F8E7D6C5B4A3928u64, 0x0123456789ABCDEFu64,
            0xFEDCBA9876543210u64, 0x0F1E2D3C4B5A6978u64, 0x89ABCDEF01234567u64, 0x76543210FEDCBA98u64,
            0xC3D2E1F0A9B8C7D6u64, 0x5A4B3C2D1E0F1020u64, 0xFFEEDDCCBBAA9988u64, 0x1122334455667788u64,
            0x99AABBCCDDEEFF00u64, 0x0A0B0C0D0E0F1011u64, 0x1234432112344321u64, 0xDEAD10CCB16B00B5u64,
            0xBADC0FFEE0DDF00Du64, 0xC0FFEE123456789Au64, 0x13579BDF2468ACE0u64, 0x2468ACE013579BDFu64,
            0xFACEB00C0FF1CE00u64, 0x0D15EA5EDEADBEEFu64, 0xCAFEBABEDEADBEEFu64, 0xDEADBEEFCAFEBABEu64,
            0xABCDEFABCDEFABCDu64, 0x1234567812345678u64, 0x8765432187654321u64, 0x0FEDCBA987654321u64,
            0x0011223344556677u64, 0x8899AABBCCDDEEFFu64, 0xFFEEDDCCBBAA9988u64, 0x7766554433221100u64,
            0xA1A2A3A4A5A6A7A8u64, 0xB1B2B3B4B5B6B7B8u64, 0xC1C2C3C4C5C6C7C8u64, 0xD1D2D3D4D5D6D7D8u64,
            0xE1E2E3E4E5E6E7E8u64, 0xF1F2F3F4F5F6F7F8u64, 0x0F0E0D0C0B0A0908u64, 0x08090A0B0C0D0E0Fu64,
            0xAAAAAAAAFFFFFFFFu64, 0x5555555500000000u64, 0x0F0F0F0F0F0F0F0Fu64, 0xF0F0F0F0F0F0F0F0u64,
            0x33333333CCCCCCCCu64, 0xCCCCCCCC33333333u64, 0xAAAAAAAAAAAAAAAAu64, 0x5555555555555555u64,
            0xCAFED00DDEADBEEFu64, 0xFACEFEEDBADC0FFEu64, 0xDEADC0DE0BADF00Du64, 0xB16B00B5FACEB00Cu64,
            0xC001D00DC0FFEE00u64, 0x0BADC0DE0BADC0DEu64, 0xFEEDFACECAFEBEEFu64, 0xDEAD10CCDEADBEEFu64,
            0x13572468ACE0BDF0u64, 0x2468ACE013572468u64, 0x89ABCDEF76543210u64, 0xFEDCBA0987654321u64,
            0x1020304050607080u64, 0x8090A0B0C0D0E0F0u64, 0x0F1F2F3F4F5F6F7Fu64, 0xF0E0D0C0B0A09080u64,
        ],
        [
            0xD43A1F9E8B7C6D5Au64, 0x3E2F1D0C4B5A6978u64, 0x8A7B6C5D4E3F2011u64, 0x1122334455667788u64,
            0x99AABBCCDDEEFF00u64, 0x0F1E2D3C4B5A6978u64, 0xABCDEF0123456789u64, 0xFEDCBA9876543210u64,
            0xCAFEBABEDEADBEEFu64, 0xDEADBEEFCAFEBABEu64, 0x0BADF00DDEADC0DEu64, 0xFACEB00C0FF1CE00u64,
            0xB16B00B5DEAD10CCu64, 0xC001D00DDEADBEEFu64, 0xFEEDFACECAFEBEEFu64, 0x0D15EA5EDEADBEEFu64,
            0x13579BDF2468ACE0u64, 0x2468ACE013579BDFu64, 0x89ABCDEF01234567u64, 0x76543210FEDCBA98u64,
            0x0011223344556677u64, 0x8899AABBCCDDEEFFu64, 0xFFEEDDCCBBAA9988u64, 0x7766554433221100u64,
            0xA1B2C3D4E5F60718u64, 0x1827364554637281u64, 0x1029384756ABCD90u64, 0x90ABCDEF10293847u64,
            0x0A0B0C0D0E0F1011u64, 0x11100F0E0D0C0B0Au64, 0x1234432112344321u64, 0xDEADC0DEBAADF00Du64,
            0xAAAAAAAA55555555u64, 0x55555555AAAAAAAAu64, 0x0F0F0F0FF0F0F0F0u64, 0xF0F0F0F00F0F0F0Fu64,
            0x33333333CCCCCCCCu64, 0xCCCCCCCC33333333u64, 0xCAFED00DDEADBEEFu64, 0xFACEFEEDBADC0FFEu64,
            0xBADC0FFEE0DDF00Du64, 0xC0FFEE123456789Au64, 0xDEAD10CCB16B00B5u64, 0x0BADC0DE0BADC0DEu64,
            0xFEEDFACECAFEBEEFu64, 0xDEADBEEFCAFEBABEu64, 0xABCDEFABCDEFABCDu64, 0x1234567812345678u64,
            0xFEDCBA9876543210u64, 0x0F1E2D3C4B5A6978u64, 0x89ABCDEF01234567u64, 0x76543210FEDCBA98u64,
            0xA5A5A5A5A5A5A5A5u64, 0x5A5A5A5A5A5A5A5Au64, 0xFFFFFFFF00000000u64, 0x00000000FFFFFFFFu64,
            0x13572468ACE0BDF0u64, 0x2468ACE013572468u64, 0xCAFEBABEDEADBEEFu64, 0xDEADBEEFCAFEBABEu64,
            0x667B377985EBCA77u64, 0x37794EB4C2B2AE3Du64, 0x4EB4C15F5667B19Eu64, 0xC15F79B9AE3D27D4u64,
        ],
        [
            0xD6E8FEB86659FD93u64, 0xA6D5A5C1B7F3D2E1u64, 0xF3B5C7D9E1A2B4C6u64, 0x9C4E3F2A1B0D5C7Eu64,
            0x1D2C3B4A59687766u64, 0x8877665544332211u64, 0x1122334455667788u64, 0x99AABBCCDDEEFF00u64,
            0xFFEEDDCCBBAA0099u64, 0x0F1E2D3C4B5A6978u64, 0x1020304050607080u64, 0x8090A0B0C0D0E0F0u64,
            0x0A0B0C0D0E0F1011u64, 0x1A2B3C4D5E6F7081u64, 0x2B3C4D5E6F708192u64, 0x3C4D5E6F708192A3u64,
            0x4D5E6F708192A3B4u64, 0x5E6F708192A3B4C5u64, 0x6F708192A3B4C5D6u64, 0x708192A3B4C5D6E7u64,
            0x8192A3B4C5D6E7F8u64, 0x92A3B4C5D6E7F809u64, 0xA3B4C5D6E7F8091Au64, 0xB4C5D6E7F8091A2Bu64,
            0xC5D6E7F8091A2B3Cu64, 0xD6E7F8091A2B3C4Du64, 0xE7F8091A2B3C4D5Eu64, 0xF8091A2B3C4D5E6Fu64,
            0x091A2B3C4D5E6F70u64, 0x1B2C3D4E5F607182u64, 0x2C3D4E5F60718293u64, 0x3D4E5F60718293A4u64,
            0x4E5F60718293A4B5u64, 0x5F60718293A4B5C6u64, 0x60718293A4B5C6D7u64, 0x718293A4B5C6D7E8u64,
            0x8293A4B5C6D7E8F9u64, 0x93A4B5C6D7E8F90Au64, 0xA4B5C6D7E8F90A1Bu64, 0xB5C6D7E8F90A1B2Cu64,
            0xC6D7E8F90A1B2C3Du64, 0xD7E8F90A1B2C3D4Eu64, 0xE8F90A1B2C3D4E5Fu64, 0xF90A1B2C3D4E5F60u64,
            0x0A1B2C3D4E5F6071u64, 0x1C2D3E4F50617283u64, 0x2D3E4F5061728394u64, 0x3E4F5061728394A5u64,
            0x4F5061728394A5B6u64, 0x5061728394A5B6C7u64, 0x61728394A5B6C7D8u64, 0x728394A5B6C7D8E9u64,
            0x8394A5B6C7D8E9FAu64, 0x94A5B6C7D8E9FA0Bu64, 0xA5B6C7D8E9FA0B1Cu64, 0xB6C7D8E9FA0B1C2Du64,
            0xC7D8E9FA0B1C2D3Eu64, 0xD8E9FA0B1C2D3E4Fu64, 0xE9FA0B1C2D3E4F50u64, 0xFA0B1C2D3E4F5061u64,
            0x0B1C2D3E4F506172u64, 0x1D2E3F5061728394u64, 0x452821E638D01377u64, 0xBE5466CF34E90C6Cu64,
        ],
        [
            0xF8D626AAAF278509u64, 0x0E3FEE3F4A4F8C12u64, 0x4C8A1B27D5E9F633u64, 0x7B942ACD183E60AFu64,
            0xD4F3E9A21C7B5088u64, 0x6AE2BC5D9F013477u64, 0x913A6F8D42CEB155u64, 0x28C5D1E7FA934622u64,
            0xB1F26D947AC83E10u64, 0x59A7C31E2D6BF488u64, 0xEC4A8019F5372BCDu64, 0x3D62FEA418B97C50u64,
            0x87BDE214CA5069F1u64, 0xF21C5893DE467A2Eu64, 0x1458AF3B9C02E677u64, 0xA63FD5E1709BC248u64,
            0xC90E347ABF651D33u64, 0x718DCA0F2E49B856u64, 0x2AF4B9816D30CE77u64, 0xE5C2374DA81FB290u64,
            0x94B80DF6317AE54Cu64, 0x38EFA572C4D019ABu64, 0xDB14C6F83A275E91u64, 0x6F90A1BD45EC3372u64,
            0x1A7E3CD864B2F550u64, 0xB84F9217DE60AC39u64, 0xC35D0AFBE1947682u64, 0x7D21E8436ABF905Eu64,
            0xF6A90D31C7284BE4u64, 0x0BC57A9EF463D128u64, 0x5E13DF8A20CB6749u64, 0xA9F42C71D85E036Bu64,
            0x2748B3EC9D16FA40u64, 0xD18E640A53BC29F7u64, 0x68CB2F9E714D8055u64, 0xFE05A71BD342C69Au64,
            0x31D9EC8F607A1544u64, 0x8C24B7A5FD91E263u64, 0x476AE19D3CB8507Fu64, 0xBAF50326E4D17C18u64,
            0x03E4C89AF1276DB2u64, 0xD762A40C5E9B3184u64, 0x94F0BE6138CA5727u64, 0x2D81E75AB469F03Cu64,
            0xC658149F72DE8A90u64, 0x71BC3E5D0AF24768u64, 0xE92067A3D58CF141u64, 0x56DA18FC309BE27Du64,
            0x1FC37AB542D69088u64, 0xA4835DE71F2CB649u64, 0xD7E01A8C96F45320u64, 0x689C42BDF715AE13u64,
            0x32F7D9840ECB561Au64, 0xBC159E6AF43027D5u64, 0xF047C2D91B8EA364u64, 0x0D8AE57163FC294Bu64,
            0x95B34CF8D1207E6Fu64, 0x47E6A193BC5D8422u64, 0xEA2F580D716CB937u64, 0x2B90D4EFC8631578u64,
            0xC7143AB85D09FE41u64, 0x6D58E2F130AC7B96u64, 0x18AF79C4E26D5033u64, 0xF39C046B8D71A2ECu64,
        ]
    ];

/// A key per color, piece kind and number of such pieces.
pub const COUNT_BY_SIDE_KEYS: [[[u64; 16]; 6]; 2] = [
        [
            [
                0xA9D06DB327E439F5u64, 0x620DD663B377BB12u64, 0x86242FF22B53D02Bu64, 0x7AB53E341F07EC90u64,
                0x84B209B5D290055Bu64, 0xA30FEBCE2F02A082u64, 0x3E0A813BD37B2E18u64, 0xB8D3AF23681C2889u64,
                0xE59D7D731F8B2D4Au64, 0xD3C45A1986AE7F20u64, 0x489EF1B7B9DFA4C7u64, 0xCE179A04F63891ABu64,
                0x12A5B4D80E3FC6DDu64, 0x6FBB8E9C243D7A61u64, 0x92DE5C0A81F33E17u64, 0xFD1047BA55A68CC2u64
            ],
            [
                0x5AB9F86D7104B2E3u64, 0x0CE4DAD3E91A6278u64, 0x79D3180B24CF55A4u64, 0xEE640C72FBB14DA1u64,
                0xC8427FA17A2D34F9u64, 0xA1B4C9076FDD8843u64, 0x39E03BD52CA7A5D8u64, 0xB5FA2A8E1D9C43E2u64,
                0x7C21E45F03B6D99Fu64, 0xF4E09B7C16A25344u64, 0x685D0EAF42F91C73u64, 0xD941B2C8EE370A1Du64,
                0x2E7C4A50B68FDC29u64, 0x81A6D9F137E2BB05u64, 0xC30F7BEA948651E7u64, 0x1DBA32C4F570AA8Cu64
            ],
            [
                0x9F1B6D4A32C0E7F8u64, 0xB47E0AC9135D62EEu64, 0x25A4FDC7E1B98241u64, 0xD80C5BAA6F4371D3u64,
                0x6A2E91BF04CCF56Au64, 0xF1D07E283A9B164Du64, 0x48BC3F9155EEA720u64, 0xC5E24A76B9D8319Eu64,
                0x7E41A8D2037F4CBBu64, 0x14F0B7CE8DAA60F2u64, 0xA2C5D93F7B0165D4u64, 0xE7A98B0243F2D8C1u64,
                0x33DE4C618A7BBFE0u64, 0x8BF62A509C14377Au64, 0x57C13E9A2D5F4B06u64, 0xFC7A84E1369DB290u64
            ],
            [
                0x04F3A9B5D827CE61u64, 0xBD60C4F218AE5937u64, 0x6E2D7109F45BC38Au64, 0xD174AFB86E03E2C5u64,
                0x92C58E370A6D4F19u64, 0x3B9AEF1427D8C6E4u64, 0xF8D214CB605E9173u64, 0x58C47A2D91B3EF00u64,
                0xAE1935F04CDA6288u64, 0x1C8BF7E36952A4D1u64, 0xC27E50ABF4D1B63Eu64, 0x74D8A91C20EF573Au64,
                0xE4C70D3B196A8F25u64, 0x29A5FEC8461370BDu64, 0xB13748D92CE5AA4Fu64, 0x83F20B5A7DE46C92u64
            ],
            [
                0xFA103CB5D26E9847u64, 0x61A9EF42C0D3748Au64, 0xC53B7D0A1EF68231u64, 0x09E7C1B5FA483D62u64,
                0xD65A0F91B3CC7E19u64, 0x34FEC208A9D76144u64, 0xB0C41E7F2D9358ABu64, 0x72D95ABF10EC64F3u64,
                0x1A7B04E5C39FD2D8u64, 0x8DFA6731B540AE06u64, 0x47C8D2AF6E1B395Cu64, 0xF31E9B7084CD25A1u64,
                0x2CB6E541D89AF730u64, 0x98A347F1C50D6BE5u64, 0xE05D28BC7134CFA9u64, 0x56F18D049AE27C13u64
            ],
            [
                0x8E4C20A7D9F36BB1u64, 0x15D3BF4E6809A254u64, 0xC9F271B5A34ED07Au64, 0x6BF8402D17C59CE3u64,
                0xF7A10D9B2E4386C0u64, 0x3A5CE87140DFBA26u64, 0xA413F09E75B84D1Cu64, 0xDB6205A9CF17E873u64,
                0x20ED4B3681FA5C9Du64, 0x9ACF7502D14B63E8u64, 0xE6B1D38F4C2A9715u64, 0x53A8CE907D6F20B4u64,
                0xBC47E2F135A0D669u64, 0x0F92AB64E3D81C57u64, 0x7D6143B9FA25EE02u64, 0xD2E84C7016BF498Au64
            ]
        ],
        [
            [
                0xB6D3F18A24EC7095u64, 0x43A7C20D9185BEF1u64, 0xD90B64F7EA3102ACu64, 0x27CE9A583D46F8B3u64,
                0xF102E74BA5C9136Du64, 0x6D85CB1F407EA924u64, 0x9B47A6D0F2C58E11u64, 0x3CFA28B5619DE047u64,
                0xE14C970AB83F5D62u64, 0x52B0ED3C7649A18Fu64, 0xAC7F01D943E6B250u64, 0x0D98B5A2CF7E3C79u64,
                0x74E1D02B958AF4CEu64, 0xC3287BF651D40AA3u64, 0x18FA4E6D3B72C591u64, 0xF69D1308AE4CB7E8u64
            ],
            [
                0x39A4C5E270DB816Fu64, 0x8F16E2D04BA93C25u64, 0xD4E93AF81560B742u64, 0x21B7C40DAE6F58C9u64,
                0xA80D7F3492E1BC50u64, 0x5F3EC28176A409DDu64, 0xEBC7904F3A62561Bu64, 0x0A51DE98C74F32E4u64,
                0xC7D420A63E9B85A8u64, 0x61AF9E14508D7C33u64, 0x97C2F805DB134E6Au64, 0x34E68A1BC5F72091u64,
                0xF3B109DE82764D7Eu64, 0x4CD8A57B19E0F2C0u64, 0xB24FCE361D8A9B15u64, 0x1583D6FA40C75EE9u64
            ],
            [
                0xE2D641A70BC59F48u64, 0x56B7C0D91EAF3421u64, 0x93FC15A4D8276BE0u64, 0x2B408E6F7159CD37u64,
                0xCA19D3B584F2A670u64, 0x7E05AFC241DB9832u64, 0x148D72EB50C4F11Du64, 0xB9F630AC8D1E75A4u64,
                0x04AB91F672CDE388u64, 0xDFA72C1459B0AE6Fu64, 0x6C51E3B8F2047A59u64, 0x80D49FA37E16BC22u64,
                0x37C5B019D4FA684Eu64, 0xF0A86E52BC731D94u64, 0x5D2147C6E89FAB03u64, 0xA71BC4D350E265DAu64
            ],
            [
                0x11C5FAE78034BD6Eu64, 0x8AE1D9534CB07F29u64, 0xC63F40A9DE278154u64, 0x3D728BF105EC96C3u64,
                0xF89A2476B31DC05Fu64, 0x65DE30BC948AF7E1u64, 0x9C170A4D52F36BA8u64, 0x2E49D8F0A16CB534u64,
                0xD7BCA35048E17A62u64, 0x40FE158C93D42D0Bu64, 0xBAE2735F6C19E8C4u64, 0x073D94A1F5B0629Du64,
                0xEC58B246AD7F1037u64, 0x59A6D13CE8047BFAu64, 0xA4F0387B6215CD81u64, 0x1BFDE6529C8E4A50u64
            ],
            [
                0x9D4317F5AE20C64Cu64, 0x28B6EC904DF719E3u64, 0xF741D3A8625B8F11u64, 0x4A09BE37C6E18475u64,
                0xC25ED0149BF63AA0u64, 0x16A8F94730DC527Eu64, 0xB8D204E76F15CB39u64, 0x63CF1A5809EAB4D2u64,
                0x0C7BE34D92F67018u64, 0xE59A10BC48D37F65u64, 0x35D4C6E12A8FB903u64, 0x8B12AF70D64CEEDAu64,
                0xD0683B59F12457A1u64, 0x41EFC8057B9AD23Cu64, 0xAF37D196C58E608Bu64, 0x72B0E4FA13CD9546u64
            ],
            [
                0xF4C72D318E0AB67Fu64, 0x5B190AE4D36FC8D2u64, 0x82DE47B95014A3A6u64, 0x1E4A8CF263DB7190u64,
                0xC916F2A07D58EC3Bu64, 0x30B7D8491FC5A46Eu64, 0xE7A25C03B64F12D5u64, 0x0F6D934E81AB7BC1u64,
                0xA3C50871DE2948FAu64, 0x68F14D2CB037E506u64, 0xDB920E57A4C16F84u64, 0x25AC6B194FD87A3Du64,
                0x94E3F7C80A5162B7u64, 0x47D8093EBC2F0CD9u64, 0xBE1574A260D3E841u64, 0x13FAE0D58C79B52Au64
            ]
        ]
    ];

} // verus!
