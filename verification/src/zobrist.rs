//! Zobrist keys: one random word for each piece on each square, one for
//! the side to move, and the hash of a position made of them.

use crate::piece::Piece;
use crate::piece::Side;
use crate::step::Step;
use crate::text::decimal_text;
use crate::text::push_decimal;
use rand::rngs::SmallRng;
use rand::RngCore;
use rand::SeedableRng;
use vstd::prelude::*;
use vstd::string::StringExecFns;

verus! {

/// The seed from which the table below was drawn.
pub const TABLE_SEED: u64 = 0xDEADBEEF;

/// The table has a block for each colour,
pub const NUM_COLORS: usize = 2;

/// in it a row for each piece kind, the empty kind included,
pub const NUM_PIECES: usize = 13;

/// and in that a word for each square.
pub const NUM_SQUARES: usize = 64;

/// The word that is part of the hash while Black is to move.
const SIDE_TO_MOVE: u64 = 0x8B44729195DDE0EF;

/// The words of the pieces: by colour, then piece kind, then square.
const ZOBRIST_PIECES: [[[u64; 64]; 13]; 2] = [
    [
        [
            0xB976C5AE2726FAB0, 0x399B6ED00C44B301, 0x693341DB5ACB2FF0, 0xDF4C9F6E60DEB640,
            0x6D4BCDB217AC4880, 0xA7ADF3C53A200A51, 0x818CB40FE11B431E, 0x5E78E12B744F228C,
            0x4225FF19E9273266, 0xA75D0DD647D09427, 0x84B9652B5E77F8FE, 0x7490264FA56DEF1A,
            0x7B4FB84DCFD22915, 0x4C4E673B2DF67889, 0xB0A7FA36EA97B2E5, 0x8B34E023227B3788,
            0xB458F7A6500F19CA, 0x73365FBC92AD519E, 0x5481B21242D19100, 0x8892CFCE0F7FAA16,
            0x52024E468882B596, 0x8C0A9DCA2A917BC2, 0x25F9B2C7647670CA, 0x39015504C2DE1E15,
            0xF06096547B99B93E, 0x242DD781F37525A1, 0x0FA369979ED3F035, 0x45F9EBCF5AC48701,
            0x2DE889D840F8D5CC, 0x209F6D88281D1A1E, 0x4C03A7899FE5CF2F, 0x096E1D680DB7FE38,
            0xBF18BD28C904B947, 0xA61798EE33AD21CE, 0x3744A280C94B44A0, 0x63FB5D5A4CB118BC,
            0xB2486AB37AB6968A, 0x61AD309C3A3675DC, 0x18A78773D4EF0200, 0xB68FECD30227843F,
            0xA39BDE0A8EE780AD, 0x74D40C221C612426, 0xE2DF756189502DB3, 0xBBFCBF08E0334A2D,
            0x759947700F0D1C8F, 0xDCB4E054B8D5129E, 0xAF4909382E3BBC4C, 0xC871A93E16ACCDEA,
            0x6A953A4212FE0976, 0x1CAC84C33B324649, 0xE0C872F29BAAF485, 0x5AC9328400756944,
            0x3BDA549D3A3D5DEF, 0x233D5A77B0AF8927, 0xDE4425C1003B9E18, 0xF8BCE3B87EFA07EA,
            0x45266E04DAF0AE2C, 0x38720ED77579D7EC, 0x6FC8BB994A0B972D, 0xC9DA913CB01FBF9B,
            0x4A7DB4832B21A1D3, 0xCFF5CC94C8E8E394, 0x6FB45FF36297CE35, 0x7BBA1A9214E7FBF6,
        ],
        [
            0x1D0AFC690219994E, 0x54846F9EE4372DAE, 0x0461226DCEB79AB0, 0xDF442395BEF8618C,
            0xA2394F74A7FFC2B9, 0x9ABDEE62A3A4F61B, 0xE3BEAB811C66E1FC, 0xA2D57A51CD9B51D1,
            0x37F61C7A3B232608, 0xAB9F7A4686F00C69, 0xA612776D8B814003, 0x5EBA8B0DC0B9DE80,
            0x1EDAAD57C55FAAC8, 0x230B11EF232984BF, 0x874E41272836153D, 0x21C93CAFC6B6FBE0,
            0xDC05006C2CB7ED81, 0x9BEB1716DDD79F00, 0xF14905DD9144109D, 0xF210648FFDAABABC,
            0xD851D8508CED95B3, 0xB20A86D0484CCA64, 0xE6644FAB5AAAC814, 0xE0B5C5240C7569C0,
            0x8E996BEA0118E606, 0x94643C708B46EF51, 0xCFB3EF090EE4D92F, 0x5D323C788F938A0A,
            0x949424798166D009, 0xF6A41E1E45D356EC, 0xDCAB40986BD7F80D, 0x54D4CB6A761DF367,
            0xE349AE200F5B9FC1, 0x8EAB3126C7CE9BBD, 0xB2DAAFE12E2A90A6, 0x5329A12F8873B82A,
            0x9DEED3A50CCA2C69, 0x106B216B8E48E709, 0x0E4A202EA7EA791F, 0xAC16A12A7287BF0E,
            0x10BB6585B089C5D0, 0x460EAB6F7E06485F, 0xA8F8337137D3BD9A, 0xC7AABA66E1C6667F,
            0xE6E28E6BCE9CDC30, 0x78CD37EE871E9696, 0xB98CF0609600A0F0, 0x6A42427D5AB4E040,
            0x77523DA1B2BFFBFF, 0xC262667A8637DCE3, 0xF475C02C6F148DA4, 0x8B56024FF13DB502,
            0x766E6B5F61584DEE, 0xF981EA5C2BFBA1D7, 0xDF7F24043CA48E6C, 0x8FD487288DA6DF7F,
            0x8516513F16684098, 0xFF343B82008C7707, 0xE2DFE2E7B533CB64, 0xB8092A9200040434,
            0xA89FA1C58A65B34C, 0x2682030070C0BDDC, 0x096B9D7C320624CC, 0x5D169D4F5C237A73,
        ],
        [
            0x4F54236A0FF8F766, 0x5B111DAF79776950, 0x11E9D57BDE90F055, 0x019EBD62DFB4ED50,
            0x51D701C133F23D06, 0xD98C3D0438524D06, 0xD86902B7C7FF240C, 0xE4A8CF6D8711BFDE,
            0xAB344E1B39B69988, 0x2209D9174E41C6B3, 0x9DEAD8FABE442B5C, 0xE4D93CC775823EB9,
            0x0424407C41A8027D, 0xFC4791363D2A9542, 0xAE46637DFB66708B, 0x24CA0B8245049EFE,
            0xC03AA2500037B3F6, 0xA1F178A6679DE5D2, 0x9685A5F3F7255BFF, 0x7CB522A475B5B788,
            0xCFD27A7CEF5C2981, 0xA8880CE6E30AB768, 0xF3B7D8B44BEF75CC, 0x227F0EF954A22C73,
            0x711C56D6B8E2718B, 0x8F5E937FAC29D415, 0xC3D268F716DFD662, 0xC576FFA35D686A0E,
            0x3EE1BE4853B79316, 0x9F6B5F29528047F5, 0x69ACBFFD5F5A2998, 0xE2C3999B5C7F9A4C,
            0x80A909D5757CD035, 0x60A2F26732A8F879, 0xAE8E6CBDDA63EC27, 0x9AADCB5BBEF0D83D,
            0xDF010B8CE18AB3E0, 0xE65BF258D5B8C18C, 0x276793530EAECA65, 0xB85DA1330E334C6C,
            0xC94178C423371842, 0xE27F52E1162A6129, 0xD362E7FFFBEB6313, 0xD5E3F3DE759762DB,
            0x708B9CE6F9CF91E8, 0x87E76ADF62780533, 0xCAF2AF3DDA853320, 0x1342E5C7D1A5A55B,
            0x5F2C26FC13CA3322, 0x40326A01D63A2200, 0x53366602C8898C84, 0x79F6C7290800BDF3,
            0x66A077B8BDF27F09, 0x32B18F97F1FA4910, 0xCB67EDE0EA85801D, 0x810232E9F82DE71E,
            0x3058C3BA4B3E5C23, 0xBD2E2C19997F3D72, 0x08F91AA7CFC53818, 0xD377967EEC6E097D,
            0x90638AFB0C72085B, 0x2DCCDD166DED815F, 0x9200A971329AC6BD, 0x917D9E8BFC95B9E2,
        ],
        [
            0x3ADD61AF8547CC67, 0x50C8C5AF9F1025F1, 0x41BBEE2EAC18582E, 0x379243C53797044F,
            0x4CFB2785E109A5A4, 0x92B54AB290BB90DD, 0x36F9DD48713927D7, 0xB99E6ED37EB2BA19,
            0x25F6B55A566CC82E, 0x038F8CDA1AC1E6D8, 0x9A3390F227B82080, 0x1BEED03246B15C0D,
            0xA0F1C53AACBBB278, 0x3A748DF634325CBB, 0x460254909CD6F918, 0xFFCF8B1714F27C55,
            0xF7CC7E6FE292E525, 0x34FDB405BA1725E4, 0xC6DE5B312C3546AF, 0xDD272EFF5898865D,
            0xFF16119CDE9B049B, 0x8C34AB90653A13AE, 0x1A88D293761EFDB4, 0xBEA8980992861B28,
            0xAB9E765DC0E9AA45, 0xE53615D98F4EDBFC, 0x637D93BE6466E678, 0x5FF8483B00A5C90C,
            0xA26F72F7BC242EE5, 0x2D8794C012FE97B9, 0x4F0F2D3FF3FBEBAA, 0xD7CF6EF44E5191FB,
            0x2A74CDDBA4CDD808, 0x29737A0769BEFA07, 0xA77281EEB61576E9, 0xB230BFE2ECEE8F86,
            0xF4B3E5C177BA7A42, 0x846B0ABEEC956C6C, 0x7E3621ED8046C91D, 0x7906F363B127C9C1,
            0x15E3840F7D1B96DD, 0x32257AC5300B2C64, 0x0927CB817DAFED88, 0x1CFE1102BF3E4B0E,
            0x30D1ADEFA133FF38, 0x3BD92551DE0371D0, 0x990CE8E2F88180CE, 0x3338C7F02B05A169,
            0xDAFD186D12B8F657, 0x0369EC356615C718, 0xA43A92694F8F97E6, 0x9D56975FABF89D44,
            0xBED19933E1FBE4D0, 0x9261C34AFC2B00BD, 0x1DD2A0A14C0F2B05, 0xC994A421BD06E848,
            0x1A82B6DEF4D210F1, 0x9D2A4539D6E9D34E, 0xDA5662D7CFE4C9C8, 0x416297D0B74E5792,
            0xE9D27171B0D5AECA, 0xF349ED737C195E37, 0x880C83D1EA1972DC, 0x07A9B8B921F3DD95,
        ],
        [
            0xEEB2F0145C982279, 0xDB3104CB7BA66C80, 0xAA285FE2E5C0F1D2, 0xF9817DAFAD18C033,
            0x2CB02D1C6A617577, 0xE59F89A93178A73D, 0x267C3951E098CCCF, 0x726EE08B5E104122,
            0xC247F87C0787CB40, 0x997262E738F70ACB, 0xB318B6BBA5FCBF19, 0x8EEAC176FD12EE15,
            0x281A80572C1AD81B, 0x2E7629291F46B0D1, 0xC274866A738B9839, 0x8A89EEC3E888E1A4,
            0xDDAEFEAF42D2613E, 0x115ABD337D835A8F, 0xAE0387BCB9165657, 0xDAFCB971640627DC,
            0x45045257E6224A57, 0x4B8F9E094E8666B3, 0x0010641BCDD09BE4, 0x2E287E189A7987D9,
            0x74028146A9484310, 0x02ADB8BAE66B9D9C, 0xB178CD4FD18A62B3, 0x97A09E86B25301D9,
            0x1A23F6B9DDE8E381, 0xF969A753EB0592EE, 0xA4403340DAAC6F46, 0x7FC6226FF0176492,
            0x1A4CE1D4BDD7E355, 0x398156A9330DA895, 0x3B06DEE23E4D073B, 0x3F9C23496DC7B395,
            0x04D3536B53B5C732, 0x08845C8C36D94448, 0x9F812B31AAB20042, 0x33E39C8DA88376A1,
            0x0B6CAE9F20887E7D, 0xB272FA33FB821B50, 0xB1A6FE0083611791, 0xCAA46D8B8D366565,
            0xC1851906B0380994, 0xD5DEA89F8454DE1C, 0x71A3FC0448566374, 0x9F0851BDB7F61A14,
            0x33F3C84C6AD738A0, 0x8C72229686B24590, 0x816F574A16F818D5, 0xED6FDF57CFA76464,
            0x44C1925142FBC50C, 0x82CB0A2D5D532A97, 0xC4314B59252DB7A3, 0xA6C36B807FCE0ABE,
            0xCF9B6E8EB23AAEAF, 0x8B9E52847D923E25, 0x7A171D79C76D7ABA, 0xAA1D3D33DE18F999,
            0xE040AE76BE62CA99, 0x334FAF3F4B6276ED, 0x95E25B8413F76D93, 0x92ECF1B492844A2F,
        ],
        [
            0x978A964F09724A5A, 0x62D33C70B07A0728, 0xFEB25840C989E801, 0x0C3949D30A87331C,
            0x1C1CD61F649669D0, 0x4BC8C9BD3026E759, 0x4A89CF11B2B03FE6, 0x2106E6035F898C48,
            0x30566BC26AE91E02, 0x812616B8474C79E6, 0x656BD54B4CF71653, 0x94CAB17A29F2067F,
            0xFE5E9D0CAF92DA62, 0x6F01434E8B8B7DDE, 0xCBEAC170207066FF, 0xBDCEB61EB3458FA0,
            0x936900A17F28E28F, 0x77E045E2C423355E, 0xC241E04F38853915, 0x73EF82D7D25CF893,
            0x46C640530BC43BD9, 0xF0AA50C63D29E2CB, 0x823A09D1A61E4AF2, 0xDF9EA9F839E25D76,
            0x90A246D7AC8E6583, 0x307A93EBF00F5D4B, 0x71373DB23AC92270, 0x4F4C235C2F30AF93,
            0xBEF0710DC6ED4D54, 0xBAF81F769A850191, 0xB2F6A08124E97389, 0x7B01B83E9BA3101F,
            0xE65AA4600F4DC50B, 0xB6E0D113332C65AA, 0x207694574D032046, 0xADC6CF4867CC42DB,
            0x4EC6FE0EEF6AE764, 0x50384B40707E052E, 0xDF62363DBCB044E8, 0xC95A0A97CD8B434E,
            0x45F7A2461491D681, 0x6C5FBD4D933DF921, 0x6493AA399A97C44C, 0x53ABDD8946D462E9,
            0x71C62AD2F15CBC5A, 0xFE60FB300A0A4296, 0x25D9ECB2A29B18D1, 0x5FEF3AC465026D17,
            0xBE745D0E02C09846, 0x20CDE00958D56849, 0xB0D02064E14E3F86, 0xC4410BA61DE55442,
            0x954265A350F41A6C, 0xF2A7D7BCD8832DBD, 0x72C4FFCA81591296, 0x457B20CEDEA57F6B,
            0x16E1BD58A35CE468, 0x916BB3231017669B, 0xF2D0221D8B368884, 0x65942EC5D83806B0,
            0xC71A3813C1D86FA0, 0x75B531B9E7A6F710, 0xE400DB46467FBBDE, 0x4AFDCCF692F082AC,
        ],
        [
            0x53E84D24E614FECC, 0x5B07F3A5BF68B9B5, 0x29E4333D3DF20D1C, 0x14DFDE0D5F300DA5,
            0xA7CBA06A917B1F40, 0x7AA0477249BE67DA, 0x119154DB9BC65EF2, 0x89E96D511EE99608,
            0x4508059A04D800EF, 0xDE7B8F7A197087AE, 0xD04D3BF387A5E443, 0x872A7E3791978EEF,
            0x39B9C2D893F442DD, 0x5FC7525B2FBFC03A, 0x202312B9C0426EFA, 0xCCB75F6CCF440A89,
            0xDBFB84CC4686B697, 0x10F6BF1E5EC4430E, 0x86CA7647E81E5538, 0xC18338D563675112,
            0x8F41A28DF05C1A32, 0x3D9C94218FA23034, 0xEA21C57B7ECABAF8, 0xA1AEE1192391BB6F,
            0x9686C478A381D28A, 0xF7CAB9DD25D40168, 0x4A9B167049BD0FC9, 0xA675244C7373D456,
            0xD9B4B1D5C3BD07A5, 0xAA4159A341D4571F, 0x266C1F1EBA9DBAA7, 0xDF76632B519F8A19,
            0x26A6876C1B0ABFA3, 0xF4C9AAC4918F4701, 0x085AE565167623A7, 0x094B7E6EA0D307FE,
            0x9FA888DC94D56584, 0x472F4DD8F04F5567, 0x0C9910A136EC96AB, 0xABEF13B5B083B038,
            0x8998425243418228, 0xAB76101588C23F47, 0x18592A74D56443C8, 0x846F81BD8D75C388,
            0xF0E0C9EF73991E0B, 0xF17A5D2219E9FA8A, 0xF0526950184C4E6D, 0xF6F6F637E8E9692F,
            0x8114832D3D4E13A9, 0xD237788348DA863D, 0x6EFB3735B337BC43, 0xA65EDCE5A5E0A21E,
            0x8F4382CF0541DC0B, 0x1611893DC89C4C79, 0x20D5472F4A3264DB, 0x95A8FB42BFB0F188,
            0x3663F49794815564, 0x4505BBB89993DFC4, 0x1CD46888D7F1D50B, 0xEBEDBF77A7E431EA,
            0x8971F96D4C8F202C, 0xA40F38725EFBF87A, 0x083735A83E2358C5, 0x519123141592ED20,
        ],
        [
            0x3B639E90747B557C, 0x2802F127B7B3CD42, 0x286063B45CA72EAC, 0x20180D3F7B6DB6E8,
            0xAD24811E9B1E4C48, 0xAA99A9F86A31F181, 0x90B4968A6160BB41, 0xF59AFA8E04A227C6,
            0x76F782C53E6049C8, 0xEEEA5509DB2AF91F, 0xDB4EEC17096A1806, 0x7A2A2C4B4A419000,
            0xAB9A5A85411DE9D5, 0x04003AD2049D4403, 0x151C56D8D08184FA, 0x745AF12D98A8ABDE,
            0x2ACEF0974D2457C4, 0x1AD5A2A0F5632E12, 0x90ECCB018B3475EA, 0x110FBD574F8B7F2D,
            0x3E854C5D7AB45D40, 0xE0A22DDFB18B3282, 0x462A35D14C6AC451, 0x4431CDA7E58F55A0,
            0x4F21422166640198, 0x7E420F1228399DC0, 0x999BB171D871EED2, 0x269F3A7EC6686612,
            0x2E07D222816FAEE6, 0xFEDF11A18F8EA424, 0xE20F4204A6253982, 0xC7CEA07A02D71C80,
            0xBE53A3BC89CE9BB3, 0x7D1FA8B9EA24909A, 0xB5368652A21A9942, 0x9D81C14A3051B896,
            0xBB00A66B92DC9EFE, 0xE956B1CFE4AE78FE, 0xC8049A34F854B8C1, 0xDD121221218525AD,
            0x0956BB9E28933449, 0x9AF1B5E77B42117C, 0x913505ADE9A54B4E, 0x5ACFDABAAAF386BB,
            0x5FDB7799B195D4BC, 0xB647948C0E629EDB, 0xE39074F9CDF39490, 0x0C9CC1A2B7AC3346,
            0x7D61994AB446EE51, 0xD828FEBE9661311D, 0xEDC167CDA4D80C10, 0xE102C84238D83EB2,
            0xB4DBB8D582EFDD1E, 0x2FDC612B87F1A98E, 0xD887240C5C3E016B, 0x688577F58DA8AC45,
            0xE973FB3EF432AD43, 0x883053ADBE468FA4, 0x8EDE67530C0F7E92, 0xB2959623FDD79502,
            0xD8715F8F05BDE519, 0x7C99CD3DA03AD551, 0x42F22034E99102A4, 0x951A49B8CCBBB07B,
        ],
        [
            0x9DC64C0BB46AEA53, 0x9E0B6FFB20DDF1DE, 0x2670EAE3A96699E5, 0x0AC9655812A772EB,
            0x771DD92F5CDDA9FE, 0x3824BB6088BD2E21, 0x7F77D25C896E5666, 0xD0FAB0A928D86876,
            0xF638F3E4F8709CA6, 0x4588C970F08027C7, 0x73649F2FFC4AAE6F, 0xEDF96C3769470176,
            0xB6345E485F77378D, 0x7EEF39498A87F821, 0xFBF07C5420E86875, 0xA29A097D23D42EDB,
            0x9941FA70D26F4B4C, 0x66ED3B28292528B9, 0xD5491E753D3C1D49, 0x7DAD188CF9DEEE67,
            0xBC078CAA761779A2, 0x68A57AFC51EA7CFB, 0xC46539675FB4D2B0, 0x01CA59CB10CF15AD,
            0x04E7F30701A531DF, 0xB1477DE03E5795A7, 0xE792F47590FAF5DE, 0x1D158458A9864E05,
            0xF5CC87FB6BFBD795, 0xBC596ABC9B16AE54, 0x960AF118036932DE, 0xE7239D9DF8A5B812,
            0x02F18024D0EF2A03, 0x156A42B79609E334, 0x54923506CFB0A19A, 0x9F741DF04353CED9,
            0xA339CB79C9A38141, 0xB17C039A82289D8B, 0x78AD8176CB9F36C3, 0x0FFEA3DC405F0817,
            0x1BF93EBACEDDE80C, 0x582131600F8EB309, 0x91CE8B21041B8DDE, 0x6BD333D1D5DD7195,
            0xBD14A61900D9B3A0, 0xFB3755A6AB6CBF38, 0xA200F19CEDE902FA, 0x3DBA2D08F20BC912,
            0x647E28B605656686, 0x780D1BC7CCEE99F5, 0x39175ADB2A509C44, 0x2871589E90EDC24C,
            0x94253C8532CE48BF, 0x8B0C1D85DE519C42, 0xC71D4869CEC64334, 0x5518A77B000C9AD4,
            0x091D35453F7B2E8E, 0x09412E5A44DA293F, 0xCE44064F0C4C2E06, 0x3E1A241CD7C2A23D,
            0x665039F80F2F750F, 0x2B13AA5ACC12E030, 0x927B7979DE41D3FF, 0xCC3986D826539774,
        ],
        [
            0x718ACF069F5CE033, 0x416BDF0ECF6C3DE6, 0x5D50DF3AE3A5C6C3, 0xD2088935123D3CC5,
            0xFA085A71E4393229, 0xC5C9C45A59C4BDD8, 0x538C12E20607D0B0, 0x17D9AF3EE16060D1,
            0x73D10692869D72DF, 0x4ED8CE62D0DA424F, 0xE7724C4968A6A87B, 0x1028FEAF46AFB6C6,
            0x3D96B99CF33B14E4, 0x59C59F00942AB143, 0x9F84530CF12846FA, 0xBB40005B3EBF847D,
            0xBDD5A6FC2A31CDC5, 0x32EA5434E1B76A68, 0x03A4039BB3DD5C3C, 0x7BC13B553B50D8FD,
            0xBFFAA65246A7626F, 0x4B9176632CD3BF9F, 0x3F3932DE00DE92E3, 0x18E9AB9696279310,
            0x727F2956D599D6EA, 0x386376BACC9074A4, 0x9C65D6F88EF5A045, 0x98061E1634922DFD,
            0xD5B643E2694E8950, 0xA5771CB7F3AC7F9B, 0xC132AF26CE61567F, 0xA37003BFC62646D7,
            0xBB790897B9358ECE, 0x76E92853EE06A712, 0x5445893AA224B1A2, 0xC64FBCBFCEA8AD5D,
            0x67E424F771D19F95, 0x7FB138AE91B1FD91, 0x163CD2614182694C, 0x3C484B9AD833F4D7,
            0x1DE45FBCE99FBABF, 0x9DEEF39958CC2300, 0xDE70C4F3E2E8EAA6, 0x01DEF7AFD471E74A,
            0xBAD8486BB58AA3F2, 0x43E7E0450C0DC75C, 0xE201FB428138FE5A, 0x2068C231DE7E5924,
            0x5B3C74EB9D389AB7, 0x742A6CC3EF798007, 0x225287207B24A959, 0x0975B183253D273C,
            0xAC99C1ADBDC46B19, 0xD0A97E52DF730CEE, 0x3A1E797BCB6B85F6, 0xD89D45F927DF16BB,
            0x06B433E80C98B9EA, 0x9CA49915F8CD4179, 0x59842858034283FD, 0xAA8761361EEDB4C0,
            0x36EF66F5F07EE941, 0x2491FD530689D47F, 0x8C1344A55B517BFE, 0x52EB130B9D94AA39,
        ],
        [
            0x732B01A18277B00E, 0xB18097331CA57072, 0x24375386728DE5AA, 0x9CBE4673E9B326E0,
            0x4DB16EAF6B4DF6A1, 0x42E2E193E17C7441, 0xF93999FC26E39B26, 0xC5F19832F3C420C2,
            0x634E939535278F95, 0x0F5A14B595BC9126, 0x0ABD81A8C07618C2, 0x87FEEE4BD7F27F3C,
            0xA8C16AE11F8458EC, 0xC7CB110E407F8162, 0x403444E194AFAB5E, 0x000C902C28920750,
            0xA2E7EECE58686BC7, 0x3AF8F8A358795A0B, 0xF458E0BD94D043D2, 0xF9E72067A09A26A9,
            0x6537397CC908FBCC, 0x56BA1C09EB03068A, 0x95A2B13F02492A62, 0x940AC4D610B5834E,
            0x9474DB8285DAD25D, 0xD3103FEAD3488B25, 0x156246F81C841523, 0x9877A70F4D8F6CA2,
            0x83F876CA52183225, 0x715C22EE6E4D2C15, 0xA821565D7AE2F159, 0x9D7687996FA178F3,
            0x13E0B2D4E77F3110, 0xD0D94551D4BD7CC7, 0xAD9171DA23C0C758, 0x3613A57BAB0E5710,
            0xF8471E472294CD43, 0x0FFE32E38ECF90AF, 0x9A5F6E6A9A345208, 0x5942F7CAC1148733,
            0x16629C2CA257795E, 0x05E49C0938C41F68, 0x96B3C273AD048B2C, 0x966555C61A342E44,
            0xD52FC093BB06751C, 0x1F10597B58B031CC, 0x52CED80B97A1AD3D, 0x77520855309409B9,
            0xE592DF7D886251CE, 0x531933248A2F9E4E, 0x375001EA151D9BBB, 0x3FF630936E262716,
            0x79399702DB83D3C7, 0xC5FB4782957B1179, 0x97281345262A619D, 0x722B2A3152AC3CE5,
            0x27FE5FFE66D67E7E, 0xBF34659768DBA71D, 0x3E789B4FCC3909ED, 0xCE8E0D87D5737659,
            0xAE738BC2CF9ED735, 0x1754CD03AA0C2F47, 0x580FDA9D70CBCF36, 0x04EE5ECD2E8727C4,
        ],
        [
            0x5705E945C2F8F884, 0x3E4CFA105F0F4C9B, 0xB620B83F73EFA342, 0xDC8BDFED9AF8A533,
            0xF6F3F768F69016D6, 0x10EB58F01F42FE3D, 0xECED6BA0F31E501C, 0x715FB632193A401E,
            0x97C69EAD0E42F839, 0x0119F72BB83890F3, 0xE51D1540076BA23B, 0xEA7B2A878E69C0EB,
            0xB77493E61FF61923, 0x7D1F73EC5A7E65C9, 0x8A5943F96CE3B6B2, 0x82CA0DA8845ACF31,
            0xB75225B1C22CFB3E, 0x58B9B09B4DF7129F, 0xDD5DC1747A53F666, 0x212381DA62D073A6,
            0x8AD34B2741D5D330, 0xAE131BB17C026957, 0x6E1E9F2C7C144E73, 0xE1687DBE108C78A5,
            0x5C227C3BBAAAFEBE, 0xC5EBBD5876F5C8C9, 0x35D702E826D33A88, 0xEE9C2D3ED3EFC304,
            0x42AEC1D1ED802BBF, 0x05BFF0D380D933EE, 0x8669CE0D5AD3AD73, 0x097B364BCA429221,
            0x751880C68B2EC94E, 0x492502249BB5DFCC, 0xF0295EE3E09884FA, 0xBDC5795CA478D85C,
            0x0EBB82FC65E0EA27, 0xDF6EE0E191646CB1, 0x59A5DEF26D6B3753, 0x45F6EDBA3B33B1D8,
            0x780AAF5394645668, 0x5F61F219FE81B341, 0xF2919895C77F547B, 0x28AEE5B1449A5D43,
            0x675967DB5449BAFF, 0x7C0FADF5461884D7, 0xEB53502B6B64C0CA, 0x97D1727E5201080E,
            0xF366FE64EDF1AB93, 0x124D4F5A0218DA85, 0x7E9840EEE5BC4895, 0xAB7A8EFE48A26B4F,
            0xDDC4C4B0986F95C1, 0xCF6D4040B7A7F146, 0x31963794D45445DD, 0xC6E89A7069F89596,
            0xADBF56BF4CEA33AC, 0xB969A406CC67EB80, 0xA4974BE06ED9D832, 0x604F5514D6B75801,
            0x1434676FDA2E1777, 0x5537F3FC32E0AD98, 0xAC592ACE2D3A815E, 0x1C38851201BF54EC,
        ],
        [
            0x03E1E6F42A6B953D, 0xD73BDAE735521CA4, 0xC0DF753E8CD2F98E, 0x0B51F4E9D63BEED8,
            0x55948B7AE76E09A7, 0x397BA3772CE3FC2A, 0x537BA781900FFFF9, 0xB477DCEEB4C161AC,
            0xAA1BF69A9FA16460, 0x7E26CCB52DB39732, 0x7ED68BE36765AF3F, 0xB4B46FF6C91AFEA1,
            0xF5FDE4170961DEC9, 0x36B08490295E0625, 0xE67DC764041ABFED, 0x541A071A88048856,
            0xE17D76152CE51116, 0xEBC85BCFCC4A7071, 0xF9E0E330ACA80376, 0x9A003BE9A96B0263,
            0x170E383C5E9F7591, 0xCC55799E5B5E8236, 0x99D4C9BB7C31AB56, 0xDE8EAA1704E7C244,
            0x5683BE4F7B0C820F, 0xAD82138072391CDE, 0x71F960ABBEAF8341, 0xA4218DB6C509CC66,
            0xD59F25FC1700B126, 0xA23D6B385BBB7974, 0x9C1390ED7D4062AC, 0xB973A12AFAF4DE1C,
            0x0A14B369FEE8F306, 0xFDBD5CFDB5947274, 0x039E5DBD40232320, 0x19FA6C0248628622,
            0x5439DF6B079204B1, 0xAF6D4AB776352610, 0xB5381131DE50BF99, 0x34FA579F83B537C6,
            0xCD83B7D3BCCF47E3, 0x8CAC157383EDF62B, 0x8277A28D3EA08D59, 0xCCB96E35F088A394,
            0xAE0CC7026D35F51E, 0x8271287EE804D170, 0xA22D449EF4B0EA06, 0x9B0BBCCB3C7C1B7B,
            0xD18492309F43CBA6, 0xE5428908593649D8, 0x5680812CF709EFF2, 0x0D3A4A8143BF3581,
            0xB69273E1B6D87615, 0x45CF069F7C07ECA0, 0x5483A571CC23A355, 0x98471F2EE8545C82,
            0x330A63A6888F9BA4, 0xDC6E595DBEB906D2, 0x9D0BD6CD64C1620B, 0xC9474E0C3B0517F3,
            0x3F0F1A8208548360, 0x07D7D67F283BB5D1, 0x1B38ABC5F2AEAB09, 0xA68B20B47AC10C00,
        ],
    ],
    [
        [
            0xEDB98B8693EB9D75, 0x5FF5E4C60FA9043C, 0xB1BCF83AB635619F, 0xDDA21C229AFB46EE,
            0xA66EB3736728D66E, 0x82A6716FD615C980, 0xC1C3D46F2434FD40, 0x0CA2EACE36940308,
            0x9D998630302176F8, 0x801AAF4103991A3B, 0x0902455DC9F50F93, 0x2DCF5892B10945DC,
            0x17E2F0883F8C6A54, 0x430A1D27DBCC8A1A, 0xD78E3B36ABD4479F, 0xFF9DE69F14488272,
            0x28CF93F13BF70769, 0x48A0536107068C01, 0x851D7B957266A67B, 0x7D12E330497153AF,
            0x3A7CA917C820CCF2, 0x2E4EA4813AD7C9C4, 0xDFFBA53BAAE511A4, 0x759F8337C366C7EC,
            0xD86B39D1CC0AE377, 0x37BB7349856BB11D, 0x779EDF95308CF30D, 0x3681429AD3594B05,
            0x06C7CAF3B17E68F6, 0x9F73F50DE9B38965, 0x29EDC6FCFE3F03B7, 0x030B0E4172CFB2BE,
            0xBE9C045CA3D0EC27, 0x4CEAB4671D18BAF2, 0x271A05B7C9B2C10F, 0xB8F65310DC081CFC,
            0x43585D9C723F5713, 0x0C0C5C8BB94E7CB4, 0x7A750E1273DEDD16, 0xFBD1C1AD450D866E,
            0xEBE18778E760C906, 0x3F5E89685E5C2CBA, 0x6EE6BFE9AC744209, 0xB047E3233768565B,
            0x2A6C7C06EF1F0C1D, 0xE8CD6A97FDDB667C, 0xF0BF0BCCC56F4CC4, 0x1023FFC789CB3CE7,
            0xC97C4E8F2FAC5DC9, 0xE758BBB7E5AF9D70, 0xF3B7DC57489600DC, 0xE6EC7750E2CA2432,
            0x00DAA01C9028D32F, 0xF38137BC4694CC94, 0x6A7DC8A99601938B, 0xABEE0E57C71EC22E,
            0xB01184B2F17788C7, 0x156252FD5B6BEC27, 0x744B3E2C9E5AF01B, 0xB481CDAFE1A0E72C,
            0x3B253709716577AF, 0x12E5690AA07FEB3B, 0x7D58FF445447CAB8, 0xD1DB9957CBA128AE,
        ],
        [
            0x8CDDD0A5B654F38B, 0x0DB74D4C1277C32D, 0xE839E8853F84A287, 0x798CF683BE72E4E4,
            0xD44AFFE25BD12E73, 0xE098F9D543E7686B, 0xA3756C183F2AFD06, 0x14675E44DEE0034A,
            0x685F09FFB82D54B2, 0xD465849DCCB87A23, 0xA431C3634AE2CF41, 0xD1700288949B1045,
            0xE32C94532383CEBC, 0x9CE2AAEB65B66698, 0x14199B24CCC530C7, 0x04BDDF1F71D3C4D5,
            0x968DC449D76D6DC9, 0x759F567821AAA5E5, 0xE3FC251E454FA41B, 0x154ED4146DC3BFD6,
            0x4E87A3FF91177E5D, 0xB752E8589B458085, 0x664C0603EB266DA2, 0x7D6DE176F76A5D03,
            0xDBDC38F6B9837EAC, 0x6876960FA3DBFCD6, 0x040570324C32BE8D, 0x0ADF423EF74D2579,
            0x00BD664054D1E4CC, 0xC2510B3D27C8DC9F, 0x5D6B44DCFDDC0D2A, 0xCC1A5AE162678FDB,
            0xC645514BB97A14D2, 0xCB4D5D529CF7CE2B, 0x3F7B9F6719486816, 0x999CEED0FDED2D41,
            0x774AA3E6F4EB6C1A, 0x73C56FB50A2CA039, 0x64285633730186E7, 0x00CAC983B3DE357F,
            0x3A265A1188B0EBDB, 0xACE473CDBBBC8276, 0x2E5FC14922FDF952, 0xAB636C0501BEAA92,
            0x311D8A8A9E4DC8F9, 0x00AACD766AFE987B, 0x5D48C9E9C0D70714, 0x3D929FFFC6137606,
            0x2612C39BC8B24B89, 0xF8C0F3DF80DBC993, 0x56D8F6E696522B23, 0x2D7801C6D528E1F6,
            0x2678009AB3353718, 0x81E40D0811EB9808, 0x929B1CBF2B03E70D, 0xA80FBE31E9BCF608,
            0x71B5966A25587010, 0x346DE9895A60F6B2, 0x1F30BB9B4F614660, 0xD4AAC00E41ECABD1,
            0xB035CE2EA3870F72, 0x2FF06FC6EA38DDEA, 0x80140EE8CE75A192, 0x9DD55A1623A8C22C,
        ],
        [
            0x13C8606896BE175B, 0xAD56E8FA7B6A02FC, 0x4D9BB1FDC914206C, 0x9DBCE058C3FD501B,
            0x9B08F859F6246BD5, 0xC762EBDB3E311D64, 0xC85036161B8B20B5, 0x56C55A515CCA2097,
            0x0F53F335D14B1CB8, 0x3E725748DBE8EC30, 0x9544606E3BE5CDBC, 0x0C89020AE9799CD2,
            0xB21840BE08DCB7EB, 0x4AC44E0F0B72D5E3, 0xBC625E9DDD745C98, 0xDB991A6A8B994159,
            0x5679C0818E8391C2, 0x84D5C778C93B93A9, 0x80720B0CB5EDC067, 0x3E9F0244F1D5C3C4,
            0x826A8C56D6C27C7C, 0x37894DFC63966DFF, 0x41B0E9F61D767519, 0x6273D73E9FFF2E4B,
            0x7E50DFADEBCD1465, 0x8EA36F0FEC479A81, 0xCD7E062AD3CAB5FC, 0x80740DB911B3C46D,
            0xD4F0FEC5720DD7F1, 0x1D58AFD879FF5019, 0xCE689054715DB778, 0xFFDB3F1C3E0B1DB3,
            0xBB8750BFE7669045, 0x812F4AE17ED029D5, 0xD7BE07CB48873F07, 0xFCE65A85FFAB9B23,
            0xC2FB1910A0B2EFFD, 0xD415D5037834F596, 0x98CE7FE513560804, 0x7E4C007624ED26D2,
            0xEBD933B2DDEA8362, 0x71AA2798A350DBAA, 0xF34F900AFA143C00, 0x62CC571A287BC4D2,
            0xAF90BF6C9A2F7A49, 0xF13EED9424F6F7B2, 0x60FFABFDD6864B93, 0x3BB35F089391564C,
            0x7C583783D9C3044D, 0x2FEB7B156BCA6D37, 0x5DE1BB75D6CA2F22, 0x00FBD11437E05840,
            0x2A50A5D105DF7CD2, 0x894DBB2A5355FECB, 0xA478A919C04988BD, 0x6FC3CB8DD59DDBEB,
            0xF3EA3EAE255563D2, 0xA2F6811A94146B2A, 0xCA934E8D467268CD, 0x5EA53487E68EEFD8,
            0x8734E72D472A54D1, 0x0EEA5D81CE83A7AC, 0x2CE98095821261E5, 0x4742A141A59A986F,
        ],
        [
            0xACC24282FA580203, 0xEA32B4E6F751DC55, 0x68D3B0B624624D01, 0xA1CC06B848E6E5D1,
            0x804FFE99CFA6BF7F, 0xE7ADBDAF222830E3, 0x25C7B9B3BD8E4026, 0x16938BA3286E3522,
            0xDA7CF45D30B1B1E1, 0xFB35793E8C49052A, 0x916E62ACADADE039, 0xB2414CBF5552C754,
            0x17D84256589BFC72, 0xFFC40DD66A3E9A9A, 0xC57D64F64D09EB11, 0xC96059271AFB79A3,
            0x0D33084A652AE846, 0xF318503B6C266BA5, 0x0A8E61FAC460E3C2, 0x3C396E18D5738F93,
            0xE833FBB09637A2BD, 0x766ACB7C9D6049CF, 0x60155FEE7A9E6423, 0xD8574EABD5F4EE26,
            0xCB093A2A200D0877, 0xBDA32BA3D3EA8F16, 0xDE8271EDFE8002D2, 0x63FE33B0EAE4E53D,
            0x42BE07901AEFEAFB, 0x8E159D7B8A70E471, 0x7501F906ADBC6948, 0xE44F1D54F4271F7A,
            0xD16F66AC635DE492, 0x9750F9BDA8C82CD7, 0x9E2FBB8F71526E9E, 0xBC4AD8EFA8A52F07,
            0x41B76561870958B8, 0x7BE9F3FDB3CC8732, 0xB74ADA98A5FB185C, 0x4BD92C4333B5252E,
            0x6DAD07B5FFAC2EE5, 0xB9C4DCD3743F3AEC, 0xD24B95E1624B3B51, 0x53380DB61427E840,
            0x302025532ED6B826, 0x4E749280F6E8608F, 0x0E17A0590AC1BBDD, 0x6540A2E79F14EA62,
            0xA4D94A8EF340040F, 0xAE141E77E8DA6F30, 0xA39A994C74175CDF, 0x210A13A7C5388DB2,
            0xAF46B025FCFC3305, 0x65081C1F2E8036BA, 0xBF89069902EA709A, 0x06CCF19B0378ECF6,
            0xFE87F9A3028779CF, 0x8E6C930D2817EE5E, 0xC5092444F59E2F11, 0x620119ECFE2D61D1,
            0x7D8FBAC35C56ED4A, 0x64F1ABE6465F55EA, 0x11C0C480762ACE1B, 0x3FB689B0D0858A63,
        ],
        [
            0x593B6DBB75F6A37A, 0x67AA5B5CEFA3D4CC, 0x4AEF373758417116, 0x2DC8823681377D54,
            0x18B890DD1DD43E5F, 0xB81B14BA2BFFA77B, 0xC2BEE9DAC7F3F26C, 0x42C129EF8506C8D9,
            0xDF791B0B2D87C047, 0xF5A2E6ECCEBD5E46, 0x46E5576AA69758DE, 0xF3DF53AC31DCC5A9,
            0x69078C856D46E022, 0x4CA689CDF40CE9ED, 0x1ACD7EF3ED20F1CE, 0xA68F6CB550EFC997,
            0x7A2179B6069B464E, 0xD33DA1148BEB7DEB, 0x2F0501DF097B13C0, 0x87712B0AA98EBF80,
            0x12ACF181A0CF0679, 0x707386BC51E8174E, 0x50AC47F944331ABB, 0xDEA26890FC18DD0A,
            0xE383791D7161D21D, 0x34A414AACF0F2DF8, 0x32C598A4096C226B, 0x55E3B171798931E4,
            0x3AF2EB62F6F5B111, 0xCE56AD8C0FFB82A1, 0x54F1112D897C5A21, 0xECDE96501CC1DE24,
            0x54A952BA7F261575, 0xEB05EC7F486C9844, 0xF37B808A939FCA4F, 0x8C09D04298652FDB,
            0x69645C1A246AA739, 0x37F5F01187A2D195, 0xCB2FC04C832AD036, 0xE1D15EE2A9BF5A90,
            0xC0F1FEFFB799EE23, 0x192B2360920C3712, 0x4DA5356549B75AA8, 0x6AD7CD7FC20BA903,
            0xFA2C500589037EB0, 0x76D262E59D61D2A4, 0x8FED614AA0A13ED9, 0x4BD59DA0C7D4C4B3,
            0xCE4A9AB8B3B05AEF, 0x38C757B59898133F, 0x97E24DE9B90DDBA9, 0x43CDA20EB14E9CDE,
            0x5F519983D5913268, 0x8D8AAD82E9907966, 0x95356FFD4E0460FD, 0xF862881C19898494,
            0xB473E111EADFCDD2, 0xEBA32B1C48277E1E, 0xD935D736DA887DA5, 0x30FD305AC2E29351,
            0x9334ADB41CEEDE38, 0x887162D6FC75F367, 0xBB9609459B8AE07F, 0x2A34BA458BC277DD,
        ],
        [
            0x0876A73C913C6B94, 0x9D1FBAD848EBA628, 0xF0B72FDBCE6CC383, 0x8EDB4751B561BB67,
            0x634ACAB4662CE5B1, 0xD0610654991DEE96, 0xE05F844264E6A67A, 0x6E0CA979CDD232C2,
            0x4AE6D5CD4CCED49A, 0x2B452844D2608BF6, 0x6A750C79E91DAD64, 0x585384E8C4FE22E4,
            0x4B08A4FB23FDE973, 0xB2F8F4D903A1DC64, 0x54FBFBF116248EEA, 0x31FEC5E8BBF9769D,
            0x8BE3B8737DDE9178, 0x138FBF4CC58EC936, 0x559F70A9CD4FA39D, 0x53F237B27B8BB4DC,
            0xC530BA36141E6278, 0xC9A649B5BE2DB5F3, 0x465211D47C842643, 0xA86F9344EC816A81,
            0x8504BE605B8C0B35, 0xDC5D0E2F65CD65CD, 0x22EF1FF08B0E8093, 0xA255CC20F729CDDE,
            0xC826C5648904AF43, 0x2E650B78BE66C14B, 0x43CAE988AB1A8CDB, 0xEA3980152C7F013C,
            0x3EEA45DC07DA939B, 0xEF5842210EF9C937, 0x76EFBEB119CC0401, 0x79F50E499E6C7F0E,
            0x64EA60AB5EC2E485, 0xE85A997F530F0AE1, 0x48F4ADED615C0AB7, 0x5709DE6516D40D74,
            0x88A7E54BECDE08E8, 0x9E9D906E02872B5B, 0xD04E4C2E29514F03, 0x9570A434AA914A65,
            0x6F450E21CBF7D45C, 0x30E0D71558C6BA69, 0xD377B54C8D1D32A3, 0x0B144DE0FFF41AB8,
            0x4185F26AC2982741, 0xFC04F698BC7BC6F8, 0x6846373FE9CE41B2, 0x57DC53C438C6E1D1,
            0x546B8B78A051D95C, 0xF40129546F43F99E, 0xBCA6E30A8D05C915, 0xE7CB7411F1B7B80E,
            0xE7C4549E5A914FDA, 0x80521088FD7F03EA, 0xC05B5C0DF783F861, 0x4FDB5E6922C7124B,
            0xCFCD5A2CC43166CB, 0x1EF2879E7D97650B, 0xC0C201E36C99F833, 0xA4F95EB281754D51,
        ],
        [
            0xDF76F66BDF49C922, 0x7CF5CEFB327CC6D6, 0x9959224375EDC566, 0xE5EEE40F65A878D5,
            0xCFC23BB849B765B1, 0x151E31CFE05C1D83, 0x3AAC49D633EE1472, 0x6F32627F8A059089,
            0x155D835EB2D22411, 0x421F5A915D0AA427, 0x63E23E2540AE52CE, 0x198733B7BB4E221C,
            0x65C3904C457A0621, 0xA70198639F0838DA, 0x551A53E6FE04DD2F, 0x5A9F9FE57466516C,
            0xC141204B7431BC38, 0xBB4FF1C8BAF3AEED, 0x7DFB38483E196E8C, 0x46C92EDECED7383E,
            0xB5452C6A834B032E, 0x9E0CE395E7D6424C, 0x72D1BFCA51866B4E, 0x746687F5C7B7FC2B,
            0x311C7589BED125EE, 0xE9C2968271F14D8A, 0x3C8E4EDBDE666F7D, 0x77AC91081E4BD888,
            0x68291820634B7234, 0xF019DC61881ACB22, 0x77CDAFC90C0ADEA4, 0xC3650E30D77CE008,
            0x82FB3A6D10402E62, 0xCA4179117886F4AE, 0xB8448C5D46D851B1, 0x7AED12C59DBB734F,
            0xBA81888DFC2AC232, 0x4286C0D248FCB41B, 0x52C032623BEBB0CD, 0xF7B287A026D1D7E2,
            0x082BF3F761A259F1, 0x46E5FCEA6DC54B3A, 0x8C781B7E9B084D02, 0xB35A291530BAEDC1,
            0xE9F08344A4A166EB, 0x09E41180586DC1FD, 0x75D576AEC6568D9D, 0x7F9315491DB67DC6,
            0x8F15F96D7190FEC0, 0xB8F53BB11FFCF6B3, 0xB6F953203F683904, 0x8CC3D0B0A8F29B92,
            0x04BF4D9571965A56, 0x9F7A53EC91483C84, 0x46825105BC86DB46, 0x46AA6B8A667790E9,
            0x4CA4780D6A183AB1, 0xC38E43B3048D6649, 0x73F25FE896492795, 0x211782C45952B233,
            0x9CC74D53B33FF328, 0x14A44891FBBBB88C, 0x5BC5546EF5959249, 0xB54285E0E5113B5D,
        ],
        [
            0x627A6D31078839DA, 0x135344388E686410, 0x81758F731FC18138, 0x0BD4E1F71FDDA17A,
            0xC7B7EDEBC2531855, 0xC73B78F56B21EAD7, 0x8AF616330303C1A1, 0x79B0B70C75525244,
            0xE45C7D304FE83557, 0xB49FC413DBC2DB2A, 0x2C684B85C4597AE5, 0x20708AE85BE34962,
            0x88BA222CC2326301, 0xC2DB15B7A871C07D, 0x8BD8E4B738F5F548, 0xBC870774F8EBF14A,
            0x5FB06E1A03EBAB49, 0x2CB81F0699D69EAB, 0x695905C77269A055, 0xA67BB54A559E5D53,
            0x1697BA8687AC6DE0, 0x6B8AB04B258E08E9, 0x87C1210C1874B1C3, 0x90CDAF975AE24036,
            0xAC5471274D6A95B3, 0xADA0B394169C7685, 0xD745EEFC268C6A2C, 0x17FFAC03493C0E3E,
            0x360BAC0F246485B6, 0xA3EEBA274F0DDE32, 0x3E460731115C7F6F, 0x3BC2486D36970C04,
            0x341C2AA956C529A1, 0x900604A64FBAD8C3, 0x6CE3D83B3A0A33D0, 0x7BBE566EBD639FAF,
            0x395F2A42E5317687, 0x52A8A7DB0EE0D0DD, 0x47947E2F774E479F, 0x199729DBCE7C4846,
            0x31B9CD8DA912694D, 0x9545F1EBA2A54651, 0x072C0FEBEDC7374E, 0x94874C5B8F944C11,
            0x0A3A560DEA278D11, 0xE2DDB5681622443A, 0xCCC7D1FED59746E8, 0x671785F19FC9F036,
            0x91E0F485366BDC4E, 0x85EF676D9B170922, 0x369010B40A3ED6DF, 0x4A6C96ACA9A3C0C6,
            0x8DEB8D5716DFA5BB, 0xCCFCFB77627F3A46, 0xE7155DACFEC144B9, 0x254E2B089C648DD0,
            0xA0BA268A29C0020D, 0xBCA5247665D2E02F, 0xC6991F4EFCC13042, 0x4EB0C662D0BE8B1F,
            0x54D99B4C15E035E1, 0x306ECB2038F0E05E, 0xECA0F5E0D5A87CA9, 0xCFB57AF2F9EA8212,
        ],
        [
            0x7F44EC2E45A28B96, 0x93349CE101319789, 0x4561F479325E18EB, 0xAFD8B3DAAA1FF49F,
            0x38FC55619FA37382, 0x1FF90DAF372BE17E, 0xF8F95BA4BD26F394, 0x3E8D3861CAE65B02,
            0xCFA54A6CF86D5527, 0x55AE35E71E5138FC, 0x09291A0A66B6125A, 0x4EACA469EFD7DDD8,
            0x6682C944BFD2AEB2, 0x5F27DE3E620C3FE6, 0xC8871281C117599E, 0xEF9DB297A1D976C4,
            0x604D63B9704BE341, 0x1CB7CDB05214ABD7, 0x4EAE8214EC3346E5, 0xE00913B53D76DC90,
            0x8A2BC8282A873436, 0x9595D3125EA71B7D, 0xEC2849DA94895D4D, 0x1459B46B870AC647,
            0xA017E4A650B1E5A5, 0xCABDFED448B7FDE3, 0x719BCE0EA985DD04, 0x2CEF4FEBFF8150CF,
            0xC0C51DA3AB3DE04A, 0x496BA36CD24B368E, 0xD091DED379495CA6, 0x8758539E83A62E40,
            0x0ACADE68FC4A888B, 0xED17AD56ACA7879C, 0xB998139A6358A802, 0x43F8A7CE9B7E4A1B,
            0xCD7782ADF027DDE1, 0xC300586FEE3AE15A, 0x552A9C751515A034, 0x32D0BA19DEA7CD5C,
            0x3B712D8034BF9498, 0xE411D6009A850EB0, 0xFB97DE1F15DCD771, 0xD341E2164201A06A,
            0x66B0360561FF8DFC, 0xAA9E757D675AD308, 0x45077907960E89EB, 0x3FA90D18B7038098,
            0xA05F672745B87C00, 0xB7EAEB840B8C8C62, 0x3CF48580B52D1C30, 0x5F43320EC7D49C63,
            0x9CF7BFF06448B848, 0x6FC24848139F3794, 0xB1D1DA7F63EE3ECF, 0x8EB15BC0974DF480,
            0xA4410745A1A04EC5, 0xF35202C9402045D0, 0x49E6F847BCC5E00F, 0xFED1094C3FDAB1CC,
            0x072EA001217FD3ED, 0xB3E432A3F6CDAA59, 0xC571F656F7E3ABA4, 0x6AA5129D53F181BA,
        ],
        [
            0x1EB40BB4A47E68D0, 0xB59E78141B2ED1CF, 0x29DA1B8582F77FC2, 0x8BF27F2DE8946398,
            0x8797F99CA1947992, 0xB3E5854D71BC86F0, 0xC6A7AA4B19EAE756, 0x84ECFEC68898F1DE,
            0x8C6FA39FBD5C7B8F, 0xA0CE45CC4021A37C, 0xBE2A90C3C28760CA, 0x393B71A740E4BB2B,
            0x51CCC730344AB570, 0xF791D7F877891059, 0x82E23840919C8A6C, 0xE84958A024805620,
            0xEB8251508A7E2666, 0x5381BEF42709D0E1, 0x43D5C90565C2F17F, 0x3648F89CF0B4F2F4,
            0x7ED347AC35045EFC, 0xDFE7133CD73F6BAA, 0x60FF20E29433C9DD, 0x9691CD493EBE669D,
            0x356D83DDEBFB8F55, 0xD8DFCD3EBB9FFB2D, 0x133360A5ACCB1212, 0xA8E8DA28BFF0729E,
            0x55A89174C5C8A732, 0xD8348A59B8E687C2, 0xE400A903E59ED612, 0xC17CCF73BD320839,
            0xAFC276708EB1A9B3, 0x33A6EB47159A0420, 0x89F4A88E6E85BB74, 0x569E998EE0F43748,
            0x0E4D7F32F21E2BDE, 0xD51A80758D91734F, 0xEE7E678C87F703D2, 0xDA3CB51B67951930,
            0xF38B77586F7184D8, 0xA9944B1A779E4F87, 0x804E114F7F695BC2, 0x3DBAEEAF360026BE,
            0xF0BB0273BBCC16DA, 0x8EDFB0C041F4DB2C, 0x52F855670D8DA49A, 0x93D309D0E8E8933C,
            0xFA3A1E26D799A8F8, 0xD21A8DB762A89DD7, 0xB3E7ED238F3AEE6F, 0x409185155B74777E,
            0x8991B7C15B095E35, 0x772951675AEF4F08, 0x6A7F5494FE20CBED, 0xBAE58DBBB14C1148,
            0x78469AF9FE6880A8, 0x1D22EE1EEEA4E98F, 0xE85EC6FC330BDE15, 0xCB303DA01FB324CF,
            0xFA242C3170466163, 0xA850424BFD96B5BA, 0x268059C0ECF178F6, 0xD224200CE990EEB0,
        ],
        [
            0x8DB109EF0281D97E, 0xDE02F6084AA00077, 0x4DE291E7B624CD08, 0x35176D5704BE20F1,
            0x917AA5681F715345, 0x80AB319C9A104EDC, 0x5D656DFF7438FDDC, 0x4D9F19FD6FCC0F97,
            0xFAACF44DF097AFB1, 0x20978147886FBDC9, 0x412087AF8772E70F, 0x30DB9CC2988C9FAB,
            0x2D7D32D16A172F7B, 0x59740E9D4BA48D92, 0xFB0B5DBA7DA878DF, 0x8EA94026EFF15E19,
            0x29E703D8F7D67888, 0xE68BAA1F2546D5C1, 0x3BF75B9C8148B214, 0x943359FB84449B2A,
            0x1426D9388E481E7E, 0x10C3B5C9A13ACB76, 0xFD877E6CB51C5DC7, 0x3EDCB77DFCBBCD7E,
            0x298336D770B338A5, 0xD17F5F3B84004854, 0xBA567E8E80827FB8, 0x21311FA67B1F5823,
            0x2490BF6A03149365, 0x0772B0E8295F1474, 0xEDF70858672ACCBF, 0x633B574B2F891F67,
            0xB305AAD118FEA0A5, 0xF240CAE2F2865F9A, 0xEFDA811CFB96E0AB, 0x41B58696FD0F32AB,
            0x6EF256C7F2E686D7, 0xD999C313456C9DFC, 0xAF0EE0766AB87AD7, 0x34B69CBC1F313070,
            0x05725E30D9B80313, 0x60BB43016F0C3AC1, 0x5F184D60D98DDA75, 0x575D4E9A74E9350D,
            0xF2A8F79C98A7B02D, 0x25A9831B33C642E9, 0x871E1035AFA1448B, 0x7312AB27D6F2B44D,
            0xAB2C9FF380144F93, 0x627A84CCE862C4F3, 0x972D83F057D8E959, 0x62B592A3821475E3,
            0x414B8F8CC8E189FC, 0xF2335F8EA9596483, 0x90C35EED0732C8EB, 0x3BFBB87C48670905,
            0xCDBB39BC773689BE, 0x92C7FE51F68756BE, 0x725CE0D8F98AA131, 0xA21E12DD8D61597D,
            0x97E23EF1EFBC5D01, 0x1176503953CC7F01, 0x5B5B5159CC7E3821, 0x8920BCDED1C60D91,
        ],
        [
            0xAFF099123D61242F, 0xFC99A204F18D36F5, 0x377F9C4F694563C3, 0x586B7850579258C6,
            0x6A74EDA529905FD9, 0xA3EE785158220012, 0xE0651AF9BBD10621, 0x22243EE7FD8B7A91,
            0x5C27C7B0A79C8E68, 0x4EA574B8859F1AAF, 0xC72214C0E373B6BB, 0x402DDC500C045897,
            0x4B6C90F10DD51094, 0x1CCC41158AD21453, 0x568A4040275733E8, 0x361123ABB17E664B,
            0xB84D76B5DA085E28, 0x3351986C410E9EE3, 0xEBE83482269901F5, 0xFE52F93C8A644B91,
            0x68EE93DDF8517AD7, 0xB304F0AFFE9F0979, 0xE414250E7B01BD6E, 0xD317DEADB01B3825,
            0x74699CC721030792, 0x11FEEBAE02A544E9, 0x35AA5A0F55EEECE7, 0x29FEABBD17304E6C,
            0x9684759E268C4F1E, 0x783D8D022B5131E6, 0x98D7188CFF6D2E3E, 0x7F79FF45F04528DF,
            0xAF94655704D9E38C, 0x487DB3E45B17A790, 0xBF6E005BD3E1964A, 0xE2CF905C784DD57B,
            0x5E2C2B58A89CC5F2, 0x726D0208CDEB6100, 0x2F47615071C92C58, 0x95C22D6E27C92A6D,
            0x055D914DCB2FEBB0, 0x31D5FFDE394F6877, 0x4500BA0F5EEFA175, 0xE870969FEF5A65E2,
            0xC283BC2C2A01BC77, 0xEC963B816C696F25, 0x77AA95A6C380F4C3, 0xD06D24B151B2B103,
            0xFD6F690504AD2032, 0xE78719DA5EFB1053, 0xAD0756988AF6C3B4, 0x6223A78E3222E233,
            0x94515501D5F7D361, 0xB995F39DDE2B5A65, 0xCF6BB6D069BD02B6, 0xA1569FA5EEFE9623,
            0xB1AD03AF962B3AF2, 0x94CC104939891C24, 0x8388F53883F56AEC, 0xB49FE113173A09AA,
            0x7CFCF5DE18BC8657, 0x8D24866BBD19119C, 0x2F6DC4B263F877CE, 0x26641EAA0EE5184C,
        ],
        [
            0xF87159F0302A06F1, 0x1970AA3E013FD5F9, 0xE2115E3D7E25BDB8, 0x0308F2CCA85EC983,
            0xEDE7F8A7B4D0E9AD, 0xF8ABDE604A50C0B7, 0xA016C3A4A98EF97C, 0xF50683CDD80A3D6B,
            0xF825AB671A95BD57, 0xDA190ADA6BFD11C7, 0x04385FD1ADCAB1B2, 0xF311611475BA41FE,
            0x2FA12AD923E295DB, 0x20511068A0DC05C6, 0x144409585D4ED53D, 0xB2EC2A464DF8CF76,
            0x4494CDF9099F321B, 0x34CE72B5893EEB83, 0x5F1FC87E2562E524, 0x30B7F5B0734169BA,
            0x3C423AEAE65869F6, 0x69699E6FE5F9C41A, 0x4EB1816064E8D7C3, 0xA3B599BDB6B7ED33,
            0xB8D659A5BA051DBE, 0xBBCC62EDF31BA5E1, 0x9227CF08D34DBBFF, 0x9FC0A3FC07C6CB89,
            0x04B5506556C2325D, 0x4D1DF35F2E1A6668, 0x599ABE1F06519EEC, 0x925160D3CC5AEF10,
            0xBD5852A5ED51DC13, 0x1EE8BAB17B74C0A2, 0xA888ABA08836B3C3, 0x37D9DCF05CD663F6,
            0xA494D0BE5F1A5E72, 0xBBA7C7B4AB986C08, 0x61D539CF9DCDDD9D, 0x13ECE827D905ECF2,
            0x6FF15D94DF35C7B6, 0xCD5864926DC939C7, 0x4A7EDC60D5436B13, 0x3DE37E4F0B465B73,
            0x5C74A52F9BDFF098, 0x3436231B415DEFE1, 0x1A8324E473D799BF, 0x5D2871B8CC199DCB,
            0x4071E8F74D158259, 0x2DCC930B5D3047D8, 0x56AF6384C3B3E517, 0x3634CC194D5D9CC4,
            0x229EB2DE04B43873, 0xC5DA29A41B817B7E, 0x2BB0D3C742EAF3AE, 0xD8003BE2514B67D8,
            0xAA138A4077BD6923, 0xED61C12C47CA812A, 0xB6CCE2CD1386E724, 0x8EEEFE1F607FF2E4,
            0xD0E26DA552F9DC03, 0x59384528E97DEC15, 0x00DB9B918571FAD7, 0x065474A3122F84E4,
        ],
    ],
];

/// The word of the table for a colour (0 or 1), a piece kind (0 to 12)
/// and a square (0 to 63).
pub closed spec fn table_word(color: int, piece: int, sq: int) -> u64 {
    ZOBRIST_PIECES[color][piece][sq]
}

/// The word that marks Black as the side to move.
pub closed spec fn side_word() -> u64 {
    SIDE_TO_MOVE
}

/// What `piece` on square `sq` adds to a hash: nothing for the empty kind,
/// else the table's word for the piece's colour, kind and square.
pub open spec fn piece_word(piece: Piece, sq: int) -> u64 {
    if piece == Piece::Empty {
        0
    } else if piece.is_white() {
        table_word(0, piece.index_spec(), sq)
    } else {
        table_word(1, piece.index_spec(), sq)
    }
}

/// What the side to move adds to a hash.
pub open spec fn color_word(side: Side) -> u64 {
    match side {
        Side::White => 0,
        Side::Black => side_word(),
    }
}

/// The XOR of the words of the pieces on squares `0..n`.
pub open spec fn board_hash(pieces: Seq<Piece>, n: nat) -> u64
    decreases n,
{
    if n == 0 {
        0
    } else {
        board_hash(pieces, (n - 1) as nat) ^ piece_word(pieces[n - 1], n - 1)
    }
}

/// The hash of a whole position: every piece on its square, and the side
/// to move.
pub open spec fn position_hash(pieces: Seq<Piece>, side: Side) -> u64 {
    board_hash(pieces, 64) ^ color_word(side)
}

/// What a step changes in the hash of the board it is applied to.
pub open spec fn step_word(step: Step) -> u64 {
    match step {
        Step::Move(p, source, dest) => piece_word(p, source as int) ^ piece_word(p, dest as int),
        Step::Push(p, source, dest) => piece_word(p, source as int) ^ piece_word(p, dest as int),
        Step::Place(p, sq) => piece_word(p, sq as int),
        Step::Remove(p, sq) => piece_word(p, sq as int),
        Step::Pass => 0,
    }
}

/// The word of the table for a square, a piece kind and a colour.
pub fn get_zobrist(sq: usize, piece: usize, color: usize) -> (word: u64)
    requires
        sq < 64,
        piece < 13,
        color < 2,
    ensures
        word == table_word(color as int, piece as int, sq as int),
{
    ZOBRIST_PIECES[color][piece][sq]
}

/// The word of the side to move.
pub fn color_hash(side: Side) -> (word: u64)
    ensures
        word == color_word(side),
{
    match side {
        Side::White => 0,
        Side::Black => SIDE_TO_MOVE,
    }
}

/// The word of `piece` on square `sq`.
pub fn piece_hash(piece: Piece, sq: usize) -> (word: u64)
    requires
        sq < 64,
    ensures
        word == piece_word(piece, sq as int),
{
    let kind: usize = piece.index();
    if kind == 0 {
        0
    } else if kind <= 6 {
        get_zobrist(sq, kind, 0)
    } else {
        get_zobrist(sq, kind, 1)
    }
}

/// The hash of a board with `side` to move, computed from scratch.
pub fn compute_hash(pieces: &[Piece; 64], side: Side) -> (hash: u64)
    ensures
        hash == position_hash(pieces@, side),
{
    let mut hash: u64 = 0;
    let mut sq: usize = 0;
    while sq < 64
        invariant
            sq <= 64,
            hash == board_hash(pieces@, sq as nat),
        decreases 64 - sq,
    {
        hash = hash ^ piece_hash(pieces[sq], sq);
        sq = sq + 1;
    }
    hash ^ color_hash(side)
}

/// The hash after `step`, from the hash before it.
pub fn update_hash(hash: u64, step: Step) -> (updated: u64)
    requires
        step.on_board(),
    ensures
        updated == hash ^ step_word(step),
{
    match step {
        Step::Move(p, source, dest) => {
            hash ^ (piece_hash(p, source as usize) ^ piece_hash(p, dest as usize))
        },
        Step::Push(p, source, dest) => {
            hash ^ (piece_hash(p, source as usize) ^ piece_hash(p, dest as usize))
        },
        Step::Place(p, sq) => hash ^ piece_hash(p, sq as usize),
        Step::Remove(p, sq) => hash ^ piece_hash(p, sq as usize),
        Step::Pass => {
            assert(hash ^ 0 == hash) by (bit_vector);
            hash
        },
    }
}

/// The word for the side to move is not zero, so the hashes of one board
/// with either side to move differ.
pub proof fn lemma_side_word_matters(pieces: Seq<Piece>)
    ensures
        side_word() != 0,
        position_hash(pieces, Side::White) != position_hash(pieces, Side::Black),
{
    let b = board_hash(pieces, 64);
    let s = side_word();
    assert(s != 0 ==> b ^ 0 != b ^ s) by (bit_vector);
}

/// XOR may be regrouped and reordered, and a word cancels itself.
pub proof fn lemma_xor_algebra(a: u64, b: u64, c: u64)
    ensures
        (a ^ b) ^ c == a ^ (b ^ c),
        (a ^ b) ^ c == (a ^ c) ^ b,
        a ^ b == b ^ a,
        a ^ a == 0,
        a ^ 0 == a,
        (a ^ b) ^ b == a,
{
    assert((a ^ b) ^ c == a ^ (b ^ c) && (a ^ b) ^ c == (a ^ c) ^ b && a ^ b == b ^ a && a ^ a
        == 0 && a ^ 0 == a && (a ^ b) ^ b == a) by (bit_vector);
}

/// Changing the piece on one square changes the board's hash by the words
/// of the old and the new piece on that square.
pub proof fn lemma_board_hash_update(pieces: Seq<Piece>, sq: int, piece: Piece, n: nat)
    requires
        0 <= sq < pieces.len(),
        n <= pieces.len(),
    ensures
        board_hash(pieces.update(sq, piece), n) == if sq < n {
            board_hash(pieces, n) ^ (piece_word(pieces[sq], sq) ^ piece_word(piece, sq))
        } else {
            board_hash(pieces, n)
        },
    decreases n,
{
    if n > 0 {
        let m = (n - 1) as nat;
        lemma_board_hash_update(pieces, sq, piece, m);
        let changed = pieces.update(sq, piece);
        let delta = piece_word(pieces[sq], sq) ^ piece_word(piece, sq);
        if sq < m {
            lemma_xor_algebra(board_hash(pieces, m), delta, piece_word(pieces[m as int], m as int));
        } else if sq == m {
            lemma_xor_algebra(board_hash(pieces, m), piece_word(pieces[sq], sq), piece_word(piece, sq));
            lemma_xor_algebra(board_hash(pieces, m) ^ piece_word(pieces[sq], sq), piece_word(pieces[sq], sq), piece_word(piece, sq));
        }
    }
}

/// Changing the piece on one square changes the position's hash by the
/// words of the old and the new piece on that square.
pub proof fn lemma_hash_replace(pieces: Seq<Piece>, side: Side, sq: int, piece: Piece)
    requires
        pieces.len() == 64,
        0 <= sq < 64,
    ensures
        position_hash(pieces.update(sq, piece), side) == position_hash(pieces, side) ^ (
        piece_word(pieces[sq], sq) ^ piece_word(piece, sq)),
        pieces[sq] == Piece::Empty ==> position_hash(pieces.update(sq, piece), side)
            == position_hash(pieces, side) ^ piece_word(piece, sq),
        piece == Piece::Empty ==> position_hash(pieces.update(sq, piece), side) == position_hash(
            pieces,
            side,
        ) ^ piece_word(pieces[sq], sq),
{
    lemma_board_hash_update(pieces, sq, piece, 64);
    let delta = piece_word(pieces[sq], sq) ^ piece_word(piece, sq);
    lemma_xor_algebra(board_hash(pieces, 64), delta, color_word(side));
    lemma_xor_algebra(piece_word(piece, sq), 0, 0);
    lemma_xor_algebra(piece_word(pieces[sq], sq), 0, 0);
    lemma_xor_algebra(0, piece_word(piece, sq), 0);
}

/// Moving a piece from one square to another, empty one changes the
/// position's hash by the piece's words on the two squares.
pub proof fn lemma_hash_slide(pieces: Seq<Piece>, side: Side, piece: Piece, source: int, dest: int)
    requires
        pieces.len() == 64,
        0 <= source < 64,
        0 <= dest < 64,
        pieces[source] == piece,
        pieces[dest] == Piece::Empty,
        piece != Piece::Empty,
    ensures
        position_hash(pieces.update(source, Piece::Empty).update(dest, piece), side)
            == position_hash(pieces, side) ^ (piece_word(piece, source) ^ piece_word(piece, dest)),
{
    let lifted = pieces.update(source, Piece::Empty);
    lemma_hash_replace(pieces, side, source, Piece::Empty);
    lemma_hash_replace(lifted, side, dest, piece);
    lemma_xor_algebra(
        position_hash(pieces, side),
        piece_word(piece, source),
        piece_word(piece, dest),
    );
}

/// `rand::rngs::SmallRng`, the generator from which a table is drawn.
#[verifier::external_type_specification]
#[verifier::external_body]
pub struct ExSmallRng(SmallRng);

/// `SmallRng::seed_from_u64`: a generator started from `seed`. Nothing is
/// claimed of its state.
#[verifier::external_body]
fn seeded_generator(seed: u64) -> (rng: SmallRng) {
    SmallRng::seed_from_u64(seed)
}

/// `SmallRng::next_u64`: the generator's next word. Nothing is claimed of
/// its value.
#[verifier::external_body]
fn next_word(rng: &mut SmallRng) -> (word: u64) {
    rng.next_u64()
}

/// Draws the words of a table from a generator started with `seed`: first
/// the word for the side to move, then one word for each colour, piece
/// kind and square, squares running fastest.
pub fn generate_words(seed: u64) -> (words: Vec<u64>)
    ensures
        words@.len() == 1 + NUM_COLORS * NUM_PIECES * NUM_SQUARES,
        words@.len() == 1665,
{
    let mut rng = seeded_generator(seed);
    let mut words: Vec<u64> = Vec::new();
    let mut count: usize = 0;
    while count < 1 + NUM_COLORS * NUM_PIECES * NUM_SQUARES
        invariant
            count <= 1 + NUM_COLORS * NUM_PIECES * NUM_SQUARES,
            words@.len() == count,
        decreases 1 + NUM_COLORS * NUM_PIECES * NUM_SQUARES - count,
    {
        let word: u64 = next_word(&mut rng);
        words.push(word);
        count = count + 1;
    }
    words
}

/// How many words a table takes: one for the side to move, and one for
/// each colour, piece kind and square.
pub const TABLE_WORDS: usize = 1665;

/// What follows the `t`-th word of the pieces in the table's source: the
/// end of a piece kind's row after each 64th word, the end of a colour's
/// block after the thirteenth of its rows, and nothing after the very
/// last word.
pub open spec fn closing_text(t: int) -> Seq<char> {
    if (t + 1) % 64 != 0 {
        Seq::empty()
    } else if (t / 64) % 13 != 12 {
        "   ], [\n"@
    } else if t / 64 / 13 != 1 {
        "  ]], [[\n"@
    } else {
        Seq::empty()
    }
}

/// The first `n` words of the pieces as they stand in the table's source,
/// one to a line.
pub open spec fn entries_text(words: Seq<u64>, n: nat) -> Seq<char>
    decreases n,
{
    if n == 0 {
        Seq::empty()
    } else {
        entries_text(words, (n - 1) as nat) + "    "@ + decimal_text(words[n as int] as nat)
            + ",\n"@ + closing_text(n - 1)
    }
}

/// The source text of a table: the constant for the side to move, then
/// the constant that holds, for each colour and piece kind, the words of
/// the 64 squares.
pub open spec fn table_text(words: Seq<u64>) -> Seq<char> {
    "const SIDE_TO_MOVE: u64 = "@ + decimal_text(words[0] as nat) + ";\n\n"@
        + "const ZOBRIST_PIECES: [[[u64; NUM_SQUARES]; NUM_PIECES]; NUM_COLORS] = [[[\n"@
        + entries_text(words, 1664) + "]]];\n\n"@
}

/// Appends the source text of the table that `words` holds.
pub fn write_table(out: &mut String, words: &Vec<u64>)
    requires
        words@.len() == TABLE_WORDS,
    ensures
        final(out)@ == old(out)@ + table_text(words@),
{
    let ghost start = out@;
    out.append("const SIDE_TO_MOVE: u64 = ");
    push_decimal(out, words[0]);
    out.append(";\n\n");
    out.append("const ZOBRIST_PIECES: [[[u64; NUM_SQUARES]; NUM_PIECES]; NUM_COLORS] = [[[\n");
    let ghost head = out@;
    assert(head =~= start + ("const SIDE_TO_MOVE: u64 = "@ + decimal_text(words@[0] as nat)
        + ";\n\n"@
        + "const ZOBRIST_PIECES: [[[u64; NUM_SQUARES]; NUM_PIECES]; NUM_COLORS] = [[[\n"@));
    let mut t: usize = 0;
    while t < 1664
        invariant
            t <= 1664,
            words@.len() == TABLE_WORDS,
            out@ == head + entries_text(words@, t as nat),
        decreases 1664 - t,
    {
        let ghost before = out@;
        out.append("    ");
        push_decimal(out, words[t + 1]);
        out.append(",\n");
        if (t + 1) % 64 == 0 {
            if (t / 64) % 13 != 12 {
                out.append("   ], [\n");
            } else if t / 64 / 13 != 1 {
                out.append("  ]], [[\n");
            }
        }
        assert(out@ =~= before + "    "@ + decimal_text(words@[t + 1] as nat) + ",\n"@
            + closing_text(t as int));
        assert(out@ =~= head + entries_text(words@, (t + 1) as nat));
        t = t + 1;
    }
    out.append("]]];\n\n");
    assert(out@ =~= start + table_text(words@));
}

/// Appends the source text of a table whose words are drawn afresh from
/// the generator, started with the seed of the table that is in use.
pub fn write_zobrist(out: &mut String)
    ensures
        exists|words: Seq<u64>|
            words.len() == TABLE_WORDS && final(out)@ == old(out)@ + #[trigger] table_text(words),
{
    let words = generate_words(TABLE_SEED);
    write_table(out, &words);
}

} // verus!
