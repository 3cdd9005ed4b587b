//! Zobrist hashing: a 64-bit hash of a position that moves update one piece at a time.
use vstd::prelude::*;

use crate::bitboard::{BitBoard, Square};
use crate::bits::{bit_set, group_bits};
use crate::position::{CastlingRights, Piece, Pieces, Side, State};

verus! {

broadcast use group_bits;

/// The seed of the generator that draws the keys.
pub const RNG_SEED: u64 = 123456789;

/// One step of the xorshift generator.
pub open spec fn xorshift(x: u64) -> u64 {
    let a = x ^ (x << 13u64);
    let b = a ^ (a >> 7u64);
    b ^ (b << 5u64)
}

/// The generator's state after `n` steps from `seed`.
pub open spec fn rng_nth(seed: u64, n: nat) -> u64
    decreases n,
{
    if n == 0 {
        seed
    } else {
        xorshift(rng_nth(seed, (n - 1) as nat))
    }
}

/// A xorshift generator of pseudo-random 64-bit words.
pub struct RandomU64Generator {
    pub curr: u64,
}

impl RandomU64Generator {
    /// A generator started at `seed`.
    pub fn new(seed: u64) -> (r: RandomU64Generator)
        ensures
            r.curr == seed,
    {
        Self { curr: seed }
    }

    /// Steps the generator and returns its new state.
    pub fn generate(&mut self) -> (r: u64)
        ensures
            r == xorshift(old(self).curr),
            final(self).curr == r,
    {
        let mut x = self.curr;
        x ^= x << 13u64;
        x ^= x >> 7u64;
        x ^= x << 5u64;
        self.curr = x;
        x
    }
}

/// The random keys of the hash.
pub struct ZobristRandomHashes {
    pub pieces: Vec<u64>,
    pub black_to_move: u64,
    pub castling_rights: [u64; 4],
    pub en_passant_file: [u64; 8],
}

impl ZobristRandomHashes {
    /// Draws the keys from the generator seeded with `RNG_SEED`: the piece keys first, then
    /// the side key, the castling keys and the en passant keys.
    pub fn init() -> (r: ZobristRandomHashes)
        ensures
            r.pieces@.len() == 768,
            forall|i: int| 0 <= i < 768 ==> #[trigger] r.pieces@[i] == rng_nth(RNG_SEED, (i + 1) as nat),
            r.black_to_move == rng_nth(RNG_SEED, 769),
            forall|i: int| 0 <= i < 4 ==> #[trigger] r.castling_rights[i] == rng_nth(RNG_SEED, (770 + i) as nat),
            forall|i: int| 0 <= i < 8 ==> #[trigger] r.en_passant_file[i] == rng_nth(RNG_SEED, (774 + i) as nat),
    {
        let mut rng = RandomU64Generator::new(RNG_SEED);
        let mut pieces: Vec<u64> = Vec::new();
        let mut i: usize = 0;
        while i < 768
            invariant
                i <= 768,
                pieces@.len() == i,
                rng.curr == rng_nth(RNG_SEED, i as nat),
                forall|k: int| 0 <= k < i ==> #[trigger] pieces@[k] == rng_nth(RNG_SEED, (k + 1) as nat),
            decreases 768 - i,
        {
            pieces.push(rng.generate());
            i += 1;
        }
        let black_to_move = rng.generate();
        let mut castling_rights = [0u64; 4];
        let mut k: usize = 0;
        while k < 4
            invariant
                k <= 4,
                rng.curr == rng_nth(RNG_SEED, (769 + k) as nat),
                forall|j: int| 0 <= j < k ==> #[trigger] castling_rights[j] == rng_nth(RNG_SEED, (770 + j) as nat),
            decreases 4 - k,
        {
            castling_rights[k] = rng.generate();
            k += 1;
        }
        let mut en_passant_file = [0u64; 8];
        let mut k: usize = 0;
        while k < 8
            invariant
                k <= 8,
                rng.curr == rng_nth(RNG_SEED, (773 + k) as nat),
                forall|j: int| 0 <= j < k ==> #[trigger] en_passant_file[j] == rng_nth(RNG_SEED, (774 + j) as nat),
            decreases 8 - k,
        {
            en_passant_file[k] = rng.generate();
            k += 1;
        }
        ZobristRandomHashes { pieces, black_to_move, castling_rights, en_passant_file }
    }
}

/// The keys for a piece of one kind and side on one square, in the order
/// `ZobristRandomHashes::init` draws them: the first 768 values of the generator.
#[verifier::opaque]
pub const ZOBRIST_PIECE_KEYS: [u64; 768] = [
    0x00001dbfa897662f, 0x75a068ffc59e4743, 0x719302fe38f5aaad, 0x2c04d102dbd21db8,
    0x5e50aee143ef27e3, 0x28686da255f14cec, 0x9764751ad616bbd5, 0x276091719cb6bfa2,
    0x91a3cbf23f5b31fd, 0xc88ad72c111d431e, 0xfa3aff116783bd18, 0x36ff2a9c921f7022,
    0x9377d4769e83ce02, 0x4c74409cfb2c2ade, 0x780d18971deba46b, 0x8f915f5b8b353583,
    0x0369964bac15ba28, 0x09b7e3dfa5a570dc, 0x70d667fe68982a9d, 0x176eceae5513ac88,
    0x2be8328320b693f1, 0x9187e123fc897056, 0xc263e87953f051f6, 0x7c516be9b8dc9675,
    0x604e8d3206845139, 0xa1e893507efcccbb, 0xee56af69ec0a07a2, 0x42505c62c950de8d,
    0x60b8150a27abf270, 0x397108c84d910b14, 0x1342fe6b9d67ec42, 0xcec4c9412be0105a,
    0xbf25894f24a859ba, 0xcc1ed532e3c4d6a9, 0xc42af34551997dc4, 0xf5ad6556c96a79df,
    0x6f03d36d5afa676c, 0xbdd03c8c3542dce2, 0xdd921354e6671abb, 0x4628ae619279538e,
    0x3b29f7ca4a68d789, 0xbeb8e0b1992048a6, 0xde9a4865d988d757, 0x418208ff367a9419,
    0x1306686c8238a951, 0x294a14a3c7a92423, 0x0a33c1479388cbcb, 0x2d1faf4c1b6d5b1c,
    0xf1bfcf479eb613ea, 0x00b5cfe7b02a6ced, 0xbf4ed9b631d8cdf4, 0xf2ad19f474e6ac8f,
    0x7726b8887681e0d6, 0x8f8cffabbbccc477, 0x1b7603b36790a7df, 0x8c7b9c61c03fbb50,
    0x3f012ef19c5914e6, 0x47becb493cb3b6af, 0x62a223d86aa1da42, 0xf40706f8600367b6,
    0x8ac6e7526165d3d9, 0x869eb72cf3b109fe, 0x4ba03e04825159cd, 0xd3f58d54b37f2ffe,
    0x31ef04a925902a01, 0xcbc25f39c4a4e8b5, 0xa58081226324a8a4, 0x2d3f1f5300555655,
    0x265261442093fe99, 0x3f6c03028c35bba4, 0x703b0e0755c083b3, 0x2ada7db15c8c40f4,
    0xd1775f1e32474bd5, 0x66d7bceaa7f99042, 0x9d67c572659c4fa2, 0xc541409f99ab281d,
    0x7d8acf78836af8ad, 0xa18f81d50f33659c, 0x73df0413adbb6eb7, 0xdd02a3b6b447e0ea,
    0x84b52752ad88a0cb, 0x23e64cc9a2be8a0a, 0x9edb4b86ac1e865e, 0x3eddee17b3b17692,
    0xc13dec7a9567ef1f, 0xf530aed34ef5e721, 0xc44942fed749714f, 0x541811dd04d85dcd,
    0x877132b4ec98f8f6, 0xacd9ef4e3047a467, 0x925b6b9d61188f0f, 0x240450108f0b27f1,
    0x4413e3330c7f523e, 0x38a85e8a6168805a, 0x50e3f0c5cfa1fc9a, 0xfa714bd1e989e583,
    0x870161af86ed2788, 0xe63df2480d5be727, 0x40475a925cd35c09, 0xe2245e6ec0a7c6d1,
    0x4e70fbaf4daebe9c, 0x65441feb467158c1, 0x09f4bcafd1c6ec30, 0x74ed075e6955d0e8,
    0x60763be767266869, 0x6edc9718029cc1d9, 0x453ae4c4bfc76d5a, 0x2bb7cc9f73d65500,
    0xa38d3eae32938cea, 0x8e5968baca92ff13, 0xe31d1ce3cf15bb8d, 0x400c9ea4280ea4fa,
    0x9d8ad9c45a702153, 0x20d9f3c616384ff1, 0xcd121f00a2c586ee, 0x7212069ae5b2ba03,
    0x663fcb859970c957, 0x504d2d003c093da5, 0x74d8ea5728d6355e, 0x4164413dc180d834,
    0xd2fea107e759c404, 0xdcafcbb7cab8270c, 0x97c29024f7679c02, 0x4dfdd867092c64fa,
    0x1487bd3017b014d3, 0xbe186b8ab904277a, 0xf3f234be5b868734, 0x35e9b213d8ae207a,
    0x763f4c16039c75fa, 0x4edc18d5811701b1, 0x47f99177738f1db2, 0xd2a6eeeb3e3cce29,
    0xe3cab9e12875a355, 0x06714b1e27c09733, 0xc6d9f5c6d0dbe17d, 0xcbac5dc0e218961f,
    0x5219491e1062de93, 0x02533e898bdc222e, 0xcc6876509b5cecaa, 0xa7c31fdf6843c193,
    0x73a0e565747918d0, 0x95983ccdfa7602c1, 0xf7959003b715ae04, 0xe6c768b4dac00f58,
    0x730c516b51367186, 0xe2bc5e5b832f2045, 0x5d1dcc2166d027e5, 0x4f4ab46809f303aa,
    0x27737da46ffcaa8d, 0x429988d2e6524398, 0x1ffea5a370dd22ff, 0x91579bdb0053283a,
    0x3ffce6fe3446ddaa, 0xeec9a0f647a328b1, 0xb73a1c96f8fc36a0, 0x5d73d3c3f658bf6d,
    0xcff2f00cfeb8df33, 0x8ac1a98e00144bed, 0x6f7ea2ad9f1c3f7a, 0xf1f5aafc1c91a904,
    0xc04cdaa249ab2196, 0x2e7af4b07b9898f5, 0x71a964a924b1a404, 0xed412f52ac398fcc,
    0xee7fa826e98a75b3, 0x72fdfc4c863fde98, 0x513e0e1f09f7e385, 0xaa5e8b097be5ed42,
    0x02f2bc9895e7f518, 0xeca6c27c51dde2b2, 0xa493c03b28460b17, 0x789c03485022fae1,
    0xd998888c7b64cdd4, 0xea1aa80b4065d8af, 0x72db0779645dc31e, 0x5018370209499c18,
    0x9ce55e2afb5e2d20, 0xde8669342c7cf63a, 0x6372013a7e06eb96, 0x416f688d906abbe1,
    0x09e2c18d158e6c16, 0x7f687aae962a1c8e, 0x6b67b45b4005cdd7, 0x0637b98a87c6220c,
    0xec7870b447150448, 0x96ee916f0034b440, 0xcd1406e3f7a86828, 0xe72ef43c3c5e6df8,
    0x029e0b435e574b43, 0x8c40055c2e7bf7b5, 0x33b8a5dcb3a5ee5a, 0xceeb8c24903c13c6,
    0x7c29c3f5d86b1641, 0xdf2517203118758d, 0xda68f706030642e6, 0x6525c608df4acb83,
    0x57bd9f12e3ed0454, 0x5778e1da21c820dc, 0x317177b49098f43d, 0xe8a5a7f4e16e3835,
    0xc092387c10ad69a5, 0x54c2a2b0b2bdbcf6, 0x12262c57ae0e7bef, 0x1673848cfb9ee7d8,
    0xa3d426d3fc4eaef7, 0xcf48f8fb25aea32a, 0xef115dbbe926e96c, 0x60c2f71f460c887e,
    0xf5f6e1cc3f04932e, 0x1a03e4fe7349a088, 0xac734a8f531428e9, 0x51b4502db90645f8,
    0x9ad61cae001cd913, 0x67da398cc1104841, 0x35e4ab5f24834ab1, 0x98047b4aba96cce4,
    0xff3d3e4a2a4757dd, 0x50f7ed6c628c4872, 0x2c1a6a0d9af48022, 0x52b4b2d4304115e2,
    0x699afe00f1cd4669, 0xf0fceadc5dfeb205, 0xc2f9db88d984aa01, 0xf701f61eb7fd61b5,
    0xc26530bbe67690f6, 0xf3efb5561e108ab7, 0xacb0735dcc442a22, 0xd051d55c91df3436,
    0x8ed9cede8f5fbc1e, 0x7bef7a6957955826, 0x24e99363a67fd9d6, 0xc3b56003ba0def45,
    0x8225d0fcfeba3ebb, 0x310d4d082def04c6, 0xaa3f14b07b4842af, 0x4f317436fe88a4aa,
    0x4fec52b49cf23303, 0x420721b96bc98305, 0x48f1f7e2b8d05923, 0xaad6cc9110e9fb71,
    0x07ee8d77ccc24c27, 0x2a7274cd13c80e9f, 0xe06222363dc4f102, 0x08f924f26acc7460,
    0xabcb486ec2966588, 0xab20be92b15e4323, 0x0ceaa06972c2bbc5, 0x529e6485b9dc91b2,
    0x796b0d33a01d8631, 0x07609b8c6fb83edd, 0x931fbea448d865e0, 0xe4569bd76779084b,
    0xdf07d510e96d9bfb, 0x983ef609347d1f8c, 0x8837cbd4ced350d3, 0x4456ddfd8994f4f2,
    0x44017cc7adb092fb, 0x0299f608ce958ede, 0xb82b9ebcbdaa9a23, 0x8715d2645b57dd37,
    0x995e9c2b0bab36ed, 0x03871e3ee42303c0, 0xd18824c1db250d27, 0x43fdccdc3ee9315d,
    0x89c2757444919b9f, 0x1aa6a7aadaba5268, 0x36243b891101254c, 0xb6c1c0d69fbd74c6,
    0x771205e91bb80a4f, 0xcfcf62b7fe453afb, 0x580b66f152a5a78e, 0xa32021a91e812761,
    0x6d3e27c4cb22708f, 0xba3348654307026e, 0x81aa6770a986aaaa, 0x5701ae3b7963e29f,
    0x226ade304c7631da, 0x52ae4c2f1c648c19, 0xd9a2e76595700b61, 0x0cdde56065b675d7,
    0x93304aa5cd0b137c, 0xf15766b66171111a, 0xaaef9063094a42b8, 0x5214e3b266707f9d,
    0x30332e70bb4bdc62, 0xff8eae159b84781a, 0x69082ea40b68fb2a, 0xeca7c4464291abdc,
    0x94ed1387bfba0eeb, 0xe8eb28bbecefa6f6, 0x10121c06d421835b, 0x358982f3d1cca53d,
    0xbe56b041eddbb5d7, 0x79482ccca4a578fc, 0xf92b7e3fce1c2cad, 0x6fea8085d0cd6934,
    0xcf3c13c1e717e226, 0xf60a48d6f1d50822, 0x73b84ff0866dbcf2, 0x2ce8a3ea39937a6b,
    0x247d2d2d28076dbf, 0x9bbc1e8e59467824, 0x13fccfb6b6a1c754, 0xe8dfa75921adea9a,
    0x9d91a722fd2dae2f, 0xacc57dbe894a48d3, 0x6dfd701315c198c2, 0x8d657d4062190513,
    0x739597c9c3fc68f9, 0xdd20abcd6daf4368, 0xf0ff3afaedf13a2e, 0xe66bd6c22713e89a,
    0x2cd455874c2190ab, 0x4226da1461dbb00a, 0x92854eea775df8aa, 0x5ef8b038b0dd12bb,
    0x45a57485c143ad9e, 0xb69741a91ca825e5, 0x9dfbf9f464b1312e, 0x831f0e98442ac14c,
    0x233a5c35e153be0e, 0x65dea22a9e5404b2, 0xafe006780107c75b, 0x605a52dd4bf0bcb5,
    0x60eaf2d74104c10c, 0xe7622284e4767a4e, 0xecefb5b1d251627a, 0x57caa06535a1d9fe,
    0x7bf0d1493ce79c6d, 0x4252e234fa69eab5, 0xdb22e5e5a297b020, 0x54bccf937d687f40,
    0x565392bfc2ca887e, 0xadc0245882ba9f2e, 0xab2dee9e1141d390, 0xcca9cd07abd332d7,
    0x68866babf44aef32, 0x33a6921573013bec, 0xe4d975ba645c11fb, 0xb4a64d3330595418,
    0xc2bf46a33713f6b0, 0x6dc13638a199d6fd, 0x3995e7be026fb810, 0x0974943e426b0f60,
    0xc253e3b37dc02ebe, 0x5461257eb21fed03, 0x75c2b5bd913eb139, 0x454e5f3b0163e17b,
    0x7939c04325751759, 0x77cb332fceb06dd7, 0x203f7aea211f814c, 0x1163ac3c1019c48e,
    0xe1912a098dfb8467, 0x6e6ecbb3813cdf4f, 0x78a7d6856ef23311, 0xed01201e46e755d7,
    0xda8d4f7609a4d93c, 0x032c629ce36dae4e, 0x4241209a352df4d2, 0xb5469c8d60bbacdb,
    0xa549419f005b2502, 0x006ace3eca60eac8, 0x7ad7e6da6064babd, 0x6716c3e80172ed88,
    0x7cb79c7bdf372033, 0x4af45c1229a374d3, 0xde6a57957d5bb9ba, 0x2388f000b97c2969,
    0x838d2acd271cc41b, 0xf5bdc16ebef3f133, 0xec6de5298bd37831, 0x5d41fa932082a2a1,
    0x38208e7035dadb24, 0x1e17ee85f407d5d2, 0xa21b0a0590bd31d9, 0x997ce3204f88a2ba,
    0xa749bb9bd463f29f, 0xb24c262529ea25fa, 0xea57d1d5ec762911, 0x19fb66f07fd28163,
    0xcc2b58df4f828881, 0x69a4d9e5555e37d0, 0x9cd536a9deec885f, 0x74f5a0ba486c776f,
    0xed06a0f1889e1c61, 0x143eb8f07f071b39, 0x967839a9164792af, 0x9d9fabb3dc909f0a,
    0x6f3873b01108aa34, 0x50114336ee907a60, 0x68694afc2be79014, 0x7720e1e4d28d9cb4,
    0x12822b0370fc7b2d, 0xbefdb34e0abbfbfb, 0x182e0555a2cd4b4c, 0xff82b5ac65c3d99a,
    0xa4cfbba0ef626d89, 0x3086f107494b8952, 0x0011d7d2e63052c0, 0x6955dc5a73a0cec5,
    0xbc1ece4ce33f5d18, 0xc6836d648f21d1e2, 0xe54dcc4f3a82f2e1, 0xd3c9ca6218fa87c4,
    0x8140cf99e0d27aab, 0xa9d018f1b3da875e, 0xd8ede82928139fd0, 0xc1408a90a697d10f,
    0xe7e5d4a5d9e4f0cd, 0xe4ba2588db27e7ec, 0x882e3aae0d2fb743, 0xb34493406a3b454d,
    0x0cb6205a9e6fd067, 0xecad27791fd536e7, 0x528291dd71036c0a, 0x17b1fdde31de2212,
    0x231fddd5f09c0016, 0xfb91093e73804f56, 0xbb76f2dc35551348, 0xd902fd51385f06ae,
    0x7314f623ca41b743, 0x6d6ee0d04140194d, 0xb2d6241fef402ddf, 0xa1973ac4a0e972c4,
    0x8e040103883eb501, 0xc93f246e9256ad4b, 0x90dbeac9e17668f1, 0x6763ba16a4239460,
    0x1024a5b1935ba248, 0x36edec5f094c668c, 0xc468ece17a4d7561, 0xd0a26fdf2c5a6eab,
    0x10041159e0ce0676, 0xf265104ea85838ba, 0x494f852ba62d2f2b, 0xabbda5b626342915,
    0xf99b81fa084424e7, 0x9e46a71e51efd8ae, 0x0c34d8c458527f7f, 0x56436658f9ce6c61,
    0x65505bed3373d7d9, 0xb0c56971ac6720f6, 0xa7c1c2d2efcb75d7, 0x4a31aaaf181da97c,
    0x8ccaa6c17961e8ee, 0xedf7332d406ec75f, 0x7b327ccdef318f31, 0xac904398a42a0d8f,
    0x10f8a7c8144b90d4, 0x853d6777772bec55, 0x1985fea4f835d76d, 0x44a5af41cde537e3,
    0xe54eb7c2a823cccc, 0x49e06f68df3e32f5, 0xd428a2a6ed1829d0, 0xfe6c78879dbfdde3,
    0x425036e6df38e998, 0xc4bb6fa3f070372b, 0xabac7e5b0277cd25, 0xa1d5d513d4bdb41f,
    0x73695bb635bf3e57, 0x4d5be541ebf7888b, 0x0397ce63feb78e1a, 0x8e4fdc1ac82ed746,
    0xd1c49eb0b090f668, 0x10431bce8b28fd04, 0x084b58e6b78cd23e, 0x11b5006b7180075a,
    0xabb8ce7f36bbab54, 0xd16b19db7987a942, 0xd5ae16cd2d606490, 0xfc72dcfb95818b79,
    0x72ecd7f14749b3cf, 0xd199862e7b945e68, 0xf340c8077e847654, 0x99005493aa631cb8,
    0xc415b612ba9964a1, 0x347b9ee1b10a9b28, 0xa23415bd16c3c7de, 0x3894b17f386a8df1,
    0x53223b0f2de791ea, 0x990078d9b4c9ed69, 0x71d8635d06b69a93, 0xd45c25948ba95fa6,
    0x59a2588400b9b7b9, 0x4060196014635856, 0x3a9af8af557e27a6, 0xcdc588b68597bf49,
    0xf975283b29d62c97, 0xc59f9ae61c14e4ce, 0xe375251f780bee67, 0xac7596cd005c8f1b,
    0xccbcbbc88f0e8865, 0x35360edc9b7baa95, 0x558c9799b75e4880, 0x18da9823cce85631,
    0x2262d3cacfe7717d, 0x659c196bfce35b3f, 0x08fc83756dddfb69, 0xadc258faada2e13f,
    0x05065dd9e0a76c9d, 0x2b237adc72fa0584, 0xdaf0a82cb1ec016f, 0x033059cf67ee370d,
    0x0b2d6d404dfc8c43, 0x5ec5a8f25a4cb6fb, 0xab86dbebda54db96, 0x7350abe0772ea381,
    0xbaff75baab1fee46, 0xc8f6a3846b2a835a, 0x8b5b7523dfdf5b5c, 0x62aae8751f6befaa,
    0xc4bb62e51929cc55, 0x9f77c637bca77b2d, 0x88b42bc2b9ce8dfb, 0xb72b64514a80ca20,
    0x98d7fcf17d0b3534, 0x976f5e21c8c7259e, 0xf6140f1c9bad86f5, 0x9416196edd9dd7b8,
    0xa5231e43692440f7, 0x2bb215a4f1e26376, 0x5344577e1200fc30, 0xdb00809a4223c8c8,
    0x9a3806bf6edb1679, 0xe09ca2ea458fdcb5, 0xf125586e25cc87cc, 0x0905702d51b2d5a3,
    0x6f95ae489f07a1c8, 0xa6e89eb446f34deb, 0x3ed92299990687b0, 0x4d5fb6dd570fb15f,
    0xe491949fd4a5265d, 0x2263303bb7453171, 0xd97d45885e712d33, 0x54d50d84133c9689,
    0x6567db749b23d164, 0x799e0a98d964b706, 0x8e2df973c47482e8, 0x1d51592b7ebbec4d,
    0xf5030cae9db13275, 0x2241a677db85c771, 0xc2ea3410d80b275f, 0x297f16bc6cb9dcf1,
    0x8dc689bd30bfd208, 0xd5517346720eda2c, 0xa33601c965205f98, 0x1aef55c135d1ddc7,
    0xc74c6e22f6c8183c, 0x09b933da46a4e68c, 0xdc2200e03ff00461, 0x3dc9191063595909,
    0xc40ea96663f9b69b, 0x31041bbf9790e5f6, 0xd1f6dd7d17374e1d, 0x43f461fde829ffe1,
    0x04dd2365e934ff9e, 0x9fef5281f57c8dc1, 0xdfd64c3139a9b7da, 0xd9e5b192eec61495,
    0x8e0031c5b98fa27c, 0xac3608cd0e2fe538, 0xd34b3d068ed36ab2, 0x05c55bae12063c07,
    0x5252e37c0d97e65f, 0xca021966fb697433, 0x8fafeb7f8add897b, 0x3696d81e03249989,
    0x65887b06c387cdba, 0x2d93342a1ed97881, 0x3b8b38c4a6f38c30, 0xd97be31eb9b78228,
    0x2e128c43354d82ac, 0x93de38d552546789, 0xd9ce6ce6c219adc6, 0x9b38285b358bccbd,
    0x7eea2684880ed8e4, 0x73969fa16f3bf6f5, 0x856c937125151758, 0xf2bae5383ecc85b6,
    0x477afda9c9f0969d, 0x073538c0663b6ef0, 0x8cc0a38fbba6218d, 0xa986fc03a47d7f4e,
    0xabba363f63f15030, 0x78431f4ca7f36c90, 0x68260a1051406769, 0xaeefcf3d8fd5a107,
    0xa36ba96c05d7db25, 0x2abe152f3a8da7b3, 0xd0b376d41f8137bc, 0x5db1ff00518f00b3,
    0x303f8da18db01c32, 0xc11dc69b846c21ca, 0x5e98443fa6ecaa29, 0x80c27ffd0e15fe9d,
    0x1ad715fa1a1f9620, 0xca884487fa4e008c, 0xb00ddd8d634cce2d, 0x7eca29e15cf3e2d1,
    0x4bbc210003fabbd4, 0x0e603e88ef0e4fc3, 0x3dea64d163c3b01c, 0x43c7af30ba9dbffc,
    0x5ef2996aa4678be3, 0xb54a3dceaf8a5ab4, 0x91d7f21cf9b90321, 0x8623fbc043bdb587,
    0xed81ce43c60eaaac, 0x69c5980df8ce03d9, 0xb5444418084d7a5e, 0x8a25b8eb0d5e526a,
    0x9517b6ba953bbd8e, 0x03ebdf6ef0a247d5, 0x6637a271e822955a, 0xf8f0e5216e6418f0,
    0x56104efae2bd74e1, 0xb1611d8ac19bdf48, 0xed49436be9c16436, 0x5160b3c33b6844be,
    0xb54a45ea9c970d57, 0x7d93f2c53535472d, 0x7a549ba007839a83, 0xf6a996bc5371f3b6,
    0x7b2afd92f27a87f1, 0xbee3c1d921f4797e, 0x2dffd1a05147cf8c, 0x1aedcbc885034173,
    0xf8ada919a2181d11, 0xefa58c628bd0640b, 0x8c245af47dab6663, 0xe9f03d99fbfcc58f,
    0x1c6f18965efc4744, 0x2ee63507f2a5378a, 0xdb5e9e7bad6733c5, 0x1899c81c54bc30a2,
    0x1af7b7d664a92823, 0x5779570d22ec44d3, 0xd11b94776f7bdbda, 0xf8983e0fa13bc74d,
    0x2a484e2d8459b3e3, 0x5a964e24177290c4, 0xdcf94329edf85845, 0x5bdd8b12ac9e2f15,
    0x863e86b11e60b76b, 0x9eebf2c9a1055465, 0xcf07cfffea42162d, 0xe42d988a3d019161,
    0xa5c6741f3d4eaa63, 0x19f00aa13f8b3117, 0x0a39c455da4ad415, 0x681525b580f57b5d,
    0x6a60828f41fd3b8b, 0x226404d56f6924bc, 0xd4d1d92d56426755, 0x2b58fb58c32f4dbb,
    0xbf2b1b91496ea1e0, 0x61d19be5696890c3, 0x1305f8189b443562, 0x0682327947a71488,
    0x49dc97af71f36c81, 0x897a4725f52ac918, 0xc3a54a06076a8bca, 0x2c387e2e974267fd,
    0x54f0a475975d3232, 0x5f23bcd2a251de16, 0x35fbf27cbca73d6a, 0x2f42a952fc315b90,
    0x2918c016a35679c7, 0x1e7c2ac6027eda74, 0xd846c8c59ac562c0, 0x2ac42a2b92fb58a5,
    0x751502461398cdd4, 0x4a180d1966f720af, 0x2ea6a705b107a0ee, 0x8de13de6fd9ad1cf,
    0xca226bb09162822c, 0x4d00fc90ec0cc928, 0x14cf5eb9afb0cdfa, 0x222d28bc0511cec1,
    0x40af748e16bfde9c, 0x433bad9e88664201, 0xea48e107f063f665, 0x071d2986aff311e9,
    0xce5d5787b6e01cca, 0xe8fbb93940666013, 0x42862aeb08e5ca73, 0x5c4b516b87d759c7,
    0xf757579b88fab034, 0xae72b7f33f78c2d4, 0xd6c4fe3ff2eccc71, 0x7bb1ca3759311c89,
    0x0c2b253852fae2f0, 0x63fbd001d78ccd95, 0x20cbb9907ae0388e, 0xbd9ef19d4449749f,
    0x0e2a776e03eb1776, 0x488137d5bf3c47d8, 0xba49917826b1e3b7, 0xa7bd482d98a33bb0,
    0xda14d33e0978a927, 0x5e8d7292f2fac715, 0xd6ecc01218c6acbb, 0x80189f97c1a68b62,
    0xcb7bdee68b808074, 0x890e70bf619a92f4, 0xb56259105fd0c0f1, 0x08269bbdfb6edb30,
    0x861755a989519a46, 0xe31f291d10c076b2, 0xc02eb0719169413f, 0xd794a85807bbb3dd,
    0x0148683bcb51ecba, 0x86a66119f04f1d83, 0x081ae06848c8ec78, 0xc34712d54a4117a0,
    0x0aaf9da01eebcc6f, 0xe5dc817228b4e6d7, 0xd63d1c63dddd819a, 0xde1aa7ec7b969f39,
    0xf5ae3f3d310ad4a7, 0x778c4fe43a68110e, 0x0e090e352d11172c, 0xdd96acc41c84be42,
    0x0bd8524e6916907e, 0x33c5361e2f83391e, 0x11b33f3b1206a56c, 0xa1a64de715e817e6,
    0x7199da90c4653769, 0x0194e69313edefa7, 0x13fd35091be28ab8, 0x32e3656da43cd40d,
    0x80bbc574b2c1d245, 0xc54a48d0e2947481, 0x245671467357d928, 0x9ee20808fd25afda,
    0x15c6e1e119a512a5, 0xc54fdd52004c69c0, 0xed929a4677bea373, 0x4b5be300d27b3c55,
    0xdde4591879d592cd, 0x9b31c95f4d7e7fa8, 0xc89c829d124343b7, 0x57a96c0ec8f8d6f0,
    0x21406b05c1d1f0fd, 0xa36ac1a9860847dc, 0xaf809fc1a22a2a33, 0x1d0b00ae3af0c647,
    0xc17bb5878df6976b, 0x623e8494991dd025, 0xcae0bc91e6b71a65, 0x45c4cdb6f5f9ef31,
    0x649412d4aa71e54f, 0x07604821dd431de5, 0xc16fd6bb1dca115e, 0x42374963309c4d7c,
    0xe3ee3ce55074f626, 0xa3740b053c879f0a, 0x68403c507bfa4434, 0x8da14e64ce5d8a3c,
    0x01848c041d63fb28, 0xb5a4f1516a9c2d1e, 0x50e1f6e7b6d3ca44, 0xb2ce3d8b348be6d0,
    0xc7211023e4e9e6bd, 0x790bea9314497c30, 0x8e765a4bf8a4bbc8, 0xf31e39aff142175f,
];

/// The key for Black to move: the generator's 769th value.
pub const ZOBRIST_BLACK_TO_MOVE_KEY: u64 = 0xbc31911f251a3291;

/// The keys for the four castling rights: the generator's next four values.
pub const ZOBRIST_CASTLING_KEYS: [u64; 4] = [
    0x6ec47bb46a5ed434, 0xee43f15bb885771c, 0xb842bfb7890d64b2, 0x230fe76a33d24d9b,
];

/// The keys for an en passant target, by the target's rank: the generator's next eight values.
pub const ZOBRIST_EN_PASSANT_KEYS: [u64; 8] = [
    0x15f1ee19082817c0, 0x2437fac46a734a0f, 0x81ec85c7f1ad243b, 0x3facb3b3818206d3,
    0xb9a7b69c1d8015de, 0xb2b1758ea7b1ecd5, 0x3a2ca77708fc53cc, 0x5c679e6e239bd50b,
];

/// The number of the board of one kind of piece and side: the piece's number, plus six
/// for Black.
pub open spec fn bb_idx(piece: Piece, side: Side) -> int {
    piece.idx() + side.idx() * 6
}

/// Where the key of a piece on a square sits in `ZOBRIST_PIECE_KEYS`: the board's number
/// times the square's number.
pub open spec fn key_index(piece: Piece, side: Side, sq: Square) -> int {
    bb_idx(piece, side) * sq.idx()
}

/// The key of a piece of one kind and side on one square.
pub open spec fn piece_key(piece: Piece, side: Side, sq: Square) -> u64 {
    ZOBRIST_PIECE_KEYS[key_index(piece, side, sq)]
}

/// The piece with number `i`, for `i` from 0 to 5.
pub open spec fn piece_of_idx(i: int) -> Piece {
    if i == 0 {
        Piece::Pawn
    } else if i == 1 {
        Piece::Knight
    } else if i == 2 {
        Piece::Bishop
    } else if i == 3 {
        Piece::Rook
    } else if i == 4 {
        Piece::Queen
    } else {
        Piece::King
    }
}

/// The side of the `j`-th term of the piece hash: White for the first 384.
pub open spec fn term_side(j: int) -> Side {
    if j < 384 { Side::White } else { Side::Black }
}

/// The square of the `j`-th term of the piece hash.
pub open spec fn term_square(j: int) -> Square {
    Square::spec_from_idx((j % 384) / 6)
}

/// The piece of the `j`-th term of the piece hash.
pub open spec fn term_piece(j: int) -> Piece {
    piece_of_idx(j % 6)
}

/// The `j`-th term of the piece hash: the key of the term's piece, side and square when
/// that piece stands there, else 0.
pub open spec fn term_at(pieces: Pieces, j: int) -> u64 {
    if pieces.board(term_piece(j), term_side(j)).has(term_square(j)) {
        piece_key(term_piece(j), term_side(j), term_square(j))
    } else {
        0
    }
}

/// The exclusive or of the first `n` terms: sides White then Black, squares in order,
/// pieces in order within a square.
pub open spec fn pieces_hash_upto(pieces: Pieces, n: nat) -> u64
    decreases n,
{
    if n == 0 {
        0
    } else {
        pieces_hash_upto(pieces, (n - 1) as nat) ^ term_at(pieces, n - 1)
    }
}

/// The exclusive or of the keys of every piece on the board.
pub open spec fn pieces_hash(pieces: Pieces) -> u64 {
    pieces_hash_upto(pieces, 768)
}

/// The key of Black to move, when Black is to move.
pub open spec fn side_term(state: State) -> u64 {
    if state.to_move == Side::Black { ZOBRIST_BLACK_TO_MOVE_KEY } else { 0 }
}

/// The key of a castling right when it is held.
pub open spec fn castle_term(held: bool, k: int) -> u64 {
    if held { ZOBRIST_CASTLING_KEYS[k] } else { 0 }
}

/// The key of the en passant target's rank, when there is a target.
pub open spec fn en_passant_term(target: Option<Square>) -> u64 {
    match target {
        Some(t) => ZOBRIST_EN_PASSANT_KEYS[t.idx() / 8],
        None => 0,
    }
}

/// The keys of the state folded together: the side to move, the four castling rights, the
/// en passant target.
pub open spec fn state_hash(state: State) -> u64 {
    let c = state.castling_rights;
    ((((side_term(state) ^ castle_term(c.white_king_side, 0)) ^ castle_term(c.white_queen_side, 1))
        ^ castle_term(c.black_king_side, 2)) ^ castle_term(c.black_queen_side, 3)) ^ en_passant_term(
        state.en_passant_target,
    )
}

/// The hash of a position: the hash of its pieces and that of its state.
pub open spec fn full_hash(pieces: Pieces, state: State) -> u64 {
    pieces_hash(pieces) ^ state_hash(state)
}

/// Exclusive or is an abelian group operation on words.
pub proof fn lemma_xor_laws(a: u64, b: u64, c: u64)
    ensures
        (a ^ b) ^ c == (a ^ c) ^ b,
        (a ^ b) ^ c == a ^ (b ^ c),
        a ^ b == b ^ a,
        (a ^ b) ^ b == a,
        a ^ 0 == a,
        a ^ a == 0,
{
    assert((a ^ b) ^ c == (a ^ c) ^ b && (a ^ b) ^ c == a ^ (b ^ c) && a ^ b == b ^ a && (a ^ b) ^ b == a
        && a ^ 0 == a && a ^ a == 0) by (bit_vector);
}

/// The hash of a position.
#[derive(Clone, Copy, Debug, PartialEq, Eq, Structural, Hash)]
pub struct ZobristHash(pub u64);


/// The term numbers decode to the side, square and piece they were built from.
pub proof fn lemma_term_decode(j: int)
    requires
        0 <= j < 768,
    ensures
        term_side(j).idx() * 384 + term_square(j).idx() * 6 + term_piece(j).idx() == j,
        0 <= term_square(j).idx() < 64,
{
    Square::lemma_from_idx((j % 384) / 6);
}

/// Toggling one piece on one square changes the hash of the first `n` terms by that
/// piece's key exactly when its term is among them.
pub proof fn lemma_pieces_hash_toggle(pieces: Pieces, pieces2: Pieces, piece: Piece, side: Side, sq: Square, n: nat)
    requires
        n <= 768,
        forall|p: Piece, s: Side| !(p == piece && s == side) ==> pieces2.board(p, s) == pieces.board(p, s),
        forall|t: Square| pieces2.board(piece, side).has(t) == (pieces.board(piece, side).has(t) != (t == sq)),
    ensures
        pieces_hash_upto(pieces2, n) == pieces_hash_upto(pieces, n) ^ (if side.idx() * 384 + sq.idx() * 6 + piece.idx() < n {
            piece_key(piece, side, sq)
        } else {
            0
        }),
    decreases n,
{
    let j0 = side.idx() * 384 + sq.idx() * 6 + piece.idx();
    let k = piece_key(piece, side, sq);
    if n == 0 {
        lemma_xor_laws(0, 0, 0);
    } else {
        let m = (n - 1) as nat;
        lemma_pieces_hash_toggle(pieces, pieces2, piece, side, sq, m);
        lemma_term_decode(m as int);
        let a = pieces_hash_upto(pieces, m);
        let t = term_at(pieces, m as int);
        let t2 = term_at(pieces2, m as int);
        Square::lemma_idx_injective(term_square(m as int), sq);
        if m as int == j0 {
            assert(term_piece(m as int) == piece && term_side(m as int) == side && term_square(m as int) == sq);
            assert(t2 == t ^ k) by {
                lemma_xor_laws(k, 0, 0);
                lemma_xor_laws(0, k, 0);
            }
            lemma_xor_laws(a, t, k);
            lemma_xor_laws(a, 0, 0);
        } else {
            assert(t2 == t);
            if j0 < m {
                lemma_xor_laws(a, k, t);
            } else {
                lemma_xor_laws(a ^ t, 0, 0);
                lemma_xor_laws(a, 0, 0);
            }
        }
    }
}

/// Toggling one piece on one square changes the position's hash by that piece's key.
pub proof fn lemma_full_hash_toggle(pieces: Pieces, pieces2: Pieces, piece: Piece, side: Side, sq: Square, state: State)
    requires
        forall|p: Piece, s: Side| !(p == piece && s == side) ==> pieces2.board(p, s) == pieces.board(p, s),
        forall|t: Square| pieces2.board(piece, side).has(t) == (pieces.board(piece, side).has(t) != (t == sq)),
    ensures
        full_hash(pieces2, state) == full_hash(pieces, state) ^ piece_key(piece, side, sq),
{
    lemma_pieces_hash_toggle(pieces, pieces2, piece, side, sq, 768);
    lemma_xor_laws(pieces_hash(pieces), piece_key(piece, side, sq), state_hash(state));
}

/// Changing the state changes the position's hash by the two states' hashes.
pub proof fn lemma_full_hash_state(pieces: Pieces, state: State, state2: State)
    ensures
        full_hash(pieces, state2) == full_hash(pieces, state) ^ (state_hash(state) ^ state_hash(state2)),
{
    let p = pieces_hash(pieces);
    let a = state_hash(state);
    let b = state_hash(state2);
    lemma_xor_laws(p, a, a ^ b);
    lemma_xor_laws(a, a, b);
    lemma_xor_laws(a, b, 0);
    lemma_xor_laws(b, a, a);
    lemma_xor_laws(0, b, 0);
    lemma_xor_laws(b, 0, 0);
}

impl ZobristHash {
    /// The hash 0.
    pub fn empty() -> (r: ZobristHash)
        ensures
            r.0 == 0,
    {
        ZobristHash(0)
    }

    /// The hash's value.
    pub fn value(&self) -> (r: u64)
        ensures
            r == self.0,
    {
        self.0
    }

    /// The hash of the pieces and state, computed from scratch.
    pub fn calculate(pieces: &Pieces, state: &State) -> (r: ZobristHash)
        ensures
            r.0 == full_hash(*pieces, *state),
    {
        let mut hash: u64 = 0;
        let mut j: usize = 0;
        while j < 768
            invariant
                j <= 768,
                hash == pieces_hash_upto(*pieces, j as nat),
            decreases 768 - j,
        {
            let side = if j < 384 { Side::White } else { Side::Black };
            let square = Square::from_u8(((j % 384) / 6) as u8);
            let pi = j % 6;
            let piece = if pi == 0 {
                Piece::Pawn
            } else if pi == 1 {
                Piece::Knight
            } else if pi == 2 {
                Piece::Bishop
            } else if pi == 3 {
                Piece::Rook
            } else if pi == 4 {
                Piece::Queen
            } else {
                Piece::King
            };
            proof {
                Square::lemma_from_idx((j % 384) as int / 6);
                Square::lemma_idx_injective(square, term_square(j as int));
            }
            if pieces.get(piece).get(side).is_square_set(square) {
                let idx = Self::piece_key_index(square, piece, side);
                hash ^= ZOBRIST_PIECE_KEYS[idx];
            } else {
                proof {
                    lemma_xor_laws(hash, 0, 0);
                }
            }
            j += 1;
        }
        let ghost ph = hash;
        if state.to_move == Side::Black {
            hash ^= ZOBRIST_BLACK_TO_MOVE_KEY;
        } else {
            proof { lemma_xor_laws(hash, 0, 0); }
        }
        let ghost h1 = hash;
        if state.castling_rights.white_king_side {
            hash ^= ZOBRIST_CASTLING_KEYS[0];
        } else {
            proof { lemma_xor_laws(hash, 0, 0); }
        }
        let ghost h2 = hash;
        if state.castling_rights.white_queen_side {
            hash ^= ZOBRIST_CASTLING_KEYS[1];
        } else {
            proof { lemma_xor_laws(hash, 0, 0); }
        }
        let ghost h3 = hash;
        if state.castling_rights.black_king_side {
            hash ^= ZOBRIST_CASTLING_KEYS[2];
        } else {
            proof { lemma_xor_laws(hash, 0, 0); }
        }
        let ghost h4 = hash;
        if state.castling_rights.black_queen_side {
            hash ^= ZOBRIST_CASTLING_KEYS[3];
        } else {
            proof { lemma_xor_laws(hash, 0, 0); }
        }
        let ghost h5 = hash;
        if let Some(en_passant_target) = state.en_passant_target {
            let en_passant_file = en_passant_target.to_u8() as usize / 8;
            hash ^= ZOBRIST_EN_PASSANT_KEYS[en_passant_file];
        } else {
            proof { lemma_xor_laws(hash, 0, 0); }
        }
        proof {
            let c = state.castling_rights;
            let s0 = side_term(*state);
            let s1 = castle_term(c.white_king_side, 0);
            let s2 = castle_term(c.white_queen_side, 1);
            let s3 = castle_term(c.black_king_side, 2);
            let s4 = castle_term(c.black_queen_side, 3);
            let s5 = en_passant_term(state.en_passant_target);
            lemma_xor_laws(ph, s0, s1);
            lemma_xor_laws(ph, s0 ^ s1, s2);
            lemma_xor_laws(ph, (s0 ^ s1) ^ s2, s3);
            lemma_xor_laws(ph, ((s0 ^ s1) ^ s2) ^ s3, s4);
            lemma_xor_laws(ph, (((s0 ^ s1) ^ s2) ^ s3) ^ s4, s5);
        }
        ZobristHash(hash)
    }

    /// The index of a piece's key.
    fn piece_key_index(square: Square, piece: Piece, side: Side) -> (r: usize)
        ensures
            r == key_index(piece, side, square),
            r < 768,
    {
        let side_idx: usize = if side == Side::White { 0 } else { 1 };
        let bb_idx = piece.index() + side_idx * 6;
        proof {
            assert(bb_idx * square.idx() <= 11 * 63) by (nonlinear_arith)
                requires
                    bb_idx <= 11,
                    0 <= square.idx() <= 63,
            ;
        }
        bb_idx * (square.to_u8() as usize)
    }

    /// Folds in the key of a piece put on a square.
    pub fn add_piece(&mut self, square: Square, piece: Piece, side: Side)
        ensures
            final(self).0 == old(self).0 ^ piece_key(piece, side, square),
    {
        let idx = Self::piece_key_index(square, piece, side);
        self.0 ^= ZOBRIST_PIECE_KEYS[idx];
    }

    /// Folds in the key of a piece taken off a square.
    pub fn remove_piece(&mut self, square: Square, piece: Piece, side: Side)
        ensures
            final(self).0 == old(self).0 ^ piece_key(piece, side, square),
    {
        let idx = Self::piece_key_index(square, piece, side);
        self.0 ^= ZOBRIST_PIECE_KEYS[idx];
    }

    /// Folds in the keys of a piece moved from one square to another.
    pub fn move_piece(&mut self, src_square: Square, dest_square: Square, piece: Piece, side: Side)
        ensures
            final(self).0 == (old(self).0 ^ piece_key(piece, side, src_square)) ^ piece_key(piece, side, dest_square),
    {
        let i = Self::piece_key_index(src_square, piece, side);
        let j = Self::piece_key_index(dest_square, piece, side);
        self.0 ^= ZOBRIST_PIECE_KEYS[i];
        self.0 ^= ZOBRIST_PIECE_KEYS[j];
    }

    /// Folds in the key of the side to move.
    pub fn flip_side_to_move(&mut self)
        ensures
            final(self).0 == old(self).0 ^ ZOBRIST_BLACK_TO_MOVE_KEY,
    {
        self.0 ^= ZOBRIST_BLACK_TO_MOVE_KEY;
    }

    /// Folds in the key of White's king side castling.
    pub fn flip_castling_rights_white_kingside(&mut self)
        ensures
            final(self).0 == old(self).0 ^ ZOBRIST_CASTLING_KEYS[0],
    {
        self.0 ^= ZOBRIST_CASTLING_KEYS[0];
    }

    /// Folds in the key of White's queen side castling.
    pub fn flip_castling_rights_white_queenside(&mut self)
        ensures
            final(self).0 == old(self).0 ^ ZOBRIST_CASTLING_KEYS[1],
    {
        self.0 ^= ZOBRIST_CASTLING_KEYS[1];
    }

    /// Folds in the key of Black's king side castling.
    pub fn flip_castling_rights_black_kingside(&mut self)
        ensures
            final(self).0 == old(self).0 ^ ZOBRIST_CASTLING_KEYS[2],
    {
        self.0 ^= ZOBRIST_CASTLING_KEYS[2];
    }

    /// Folds in the key of Black's queen side castling.
    pub fn flip_castling_rights_black_queenside(&mut self)
        ensures
            final(self).0 == old(self).0 ^ ZOBRIST_CASTLING_KEYS[3],
    {
        self.0 ^= ZOBRIST_CASTLING_KEYS[3];
    }

    /// Folds in the key of an en passant target.
    pub fn flip_en_passant_file(&mut self, en_passant_square: Square)
        ensures
            final(self).0 == old(self).0 ^ en_passant_term(Some(en_passant_square)),
    {
        let i = en_passant_square.to_u8() as usize / 8;
        self.0 ^= ZOBRIST_EN_PASSANT_KEYS[i];
    }
}
} // verus!
