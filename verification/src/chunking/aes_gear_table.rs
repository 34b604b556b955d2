//! The substitution table of the gear hash.

use vstd::prelude::*;

verus! {

/// One 64-bit constant for every byte value. The constants are the first 256
/// outputs of the SplitMix64 generator seeded with `0x6261_6b75_7020_6763`;
/// changing any of them changes where chunks are cut.
pub const DEFAULT_TABLE: [u64; 256] = [
    0xe19121a0f4fd71f3, 0x0bde76e1be5ba254, 0xe4017c8d5d04c901, 0xefb34961e7782d4b,
    0x758760c3eadb4b5c, 0xc6c4a43b0e074239, 0x258e11d5de07d60e, 0x01e99ac1c858b70a,
    0x44d7bfd7c7973532, 0x3762975bf8c7eecd, 0xaa9528cbca6d6508, 0x46283ec991a73027,
    0xcad8bbedb342537d, 0x80ade43c6602a8c0, 0xeed42df0a8e07e71, 0xd0a650f3f5c322f8,
    0xfb669896c0dcbc4f, 0x0321a5f16da73afe, 0x8f3f8d9ae6a50704, 0x349f37544230a39d,
    0x770e379fef15002d, 0x9d98e30f2ae7ce9a, 0xdb00df23c1a1d159, 0x29c6b1bf4c772cea,
    0x2e13ae69f2f585e2, 0x8e7fa44c1d1e3730, 0xd406b60adfdaff80, 0xc96940f2a9d7e99d,
    0xf9ae66719d79b362, 0xfeca14a1eabce036, 0xc824feca616ea6f8, 0x8902ebbc4aa07380,
    0x7937487cde1bb7c1, 0x3c7fdbf7bd554b35, 0x154822c364ba29ba, 0x52f39df88046f52d,
    0xd47d3bca44416c81, 0x4b1b283624c81162, 0x6ca479753f8e586e, 0xd4bf86e475562aab,
    0xfc3f2621ad131e0e, 0xf5aad2c66c494c90, 0xf8f9b38f67af1ca3, 0xb648ab25102133d6,
    0x4d33f3d0e1348d11, 0x34385bd9ec34f71d, 0x2f53f11c06c20d99, 0x331e7a9ba6e973c1,
    0x5d2dadf1d91eb067, 0xff3ec6e1227b52f2, 0x6e834958d7cf953b, 0x14d0d6bae942313d,
    0x153aeb3d171517cb, 0xaa6801c990a973d3, 0xe383d8b98722944c, 0xe7bb161fadcb667e,
    0x57139c6fcfe25858, 0xd8b4620e840a4abc, 0x08a4fd2ef3226253, 0x60778ac4cdcc669d,
    0xb7d807015e31e4da, 0x93f00473749dba53, 0x9e2334a2c17f645c, 0xe69ccf10b98ed4d1,
    0x79593290ad228c5b, 0x6b18107c1e01c4a1, 0xe11da1eb51780ed2, 0x50884c9912709e46,
    0xca7d2bebc74391ff, 0x7ac3ac2ef2928cc4, 0xae650aca8b23237e, 0x090e82f87cf827f8,
    0x7fdcf764e24ab901, 0xb0a1a5b82e0c2a6f, 0x9ff149bf89271761, 0x68558b1f66c87d7b,
    0xf6fd130c2dad799d, 0xea764766d38b70ce, 0xb657afd2105c3b34, 0x6a0b4a4936a64197,
    0xc900188715414cc4, 0x37d0d91239d109a1, 0x3f8709b61843fa54, 0xdfc33e8f2c285c0a,
    0xa1cdc70911ee2681, 0xa85ebaf9c83faccb, 0x1ec91eba54f1e58a, 0xc33cc636d0b24fe3,
    0x54fa95fda030ce44, 0x4d2cb16f3f9901a9, 0x0a474bd97072c0d8, 0x8e631495dc504e1b,
    0x29fdb9c98b6875a7, 0x21eeb7aff0727df0, 0x89aeffa3d542922e, 0xc6cf61ee7072483e,
    0xb4b43322b5c64823, 0xa22b14960834fa6e, 0x1f3c1dbc5d22443a, 0x76606ce9d76ec118,
    0x77e8f753601aeb9e, 0x4ee7d2f97c8b32bd, 0xa6e631586ad7cee4, 0x6db7aba0a404b666,
    0xc921979e4a217db4, 0x96589ed221b900d2, 0x9b9c8ffdd3fcd341, 0xec4f950a76c4949e,
    0x7d37d58cb0e9d53b, 0xeac2d3c40e956f27, 0x07acc1f3bc744e8c, 0xfe8aacb9cc0d1217,
    0xa6b215ff2a12dc3e, 0xd139cda0143694cc, 0xe4faa1121cb5e1fb, 0x32c2728ff6dcc1a0,
    0xb79a228d6b57a8f6, 0x3f0949e50c652a81, 0x4dac381a2319b9a2, 0x9fa40821769659c1,
    0xde43d962a141d720, 0x2da159f6e0831a80, 0xc7b69a77c4f24d5e, 0xd3bb66a480e1b12e,
    0x726acd0308d6de1a, 0x2e8926f075b8e724, 0x9126e25d5fb27757, 0xc3b9ea9178ae6f00,
    0x67642832f97264cb, 0x5c14d38f4ec5e2f2, 0x3695b95deca4e8aa, 0xe502c8bebf4ec599,
    0xf31202b52bb49e77, 0xd5330a4789810ad5, 0x73c10f4c6c095355, 0x9bec40b4bcdaf4f2,
    0xca885b4c4a671000, 0xeec526ac5512b334, 0xda2903c16bc3a31f, 0xb903beb360cb7925,
    0x0e3812b7db8d0ec7, 0x0bdf7aca5042e372, 0xe4dac1cda798630c, 0x8addd86b88e1cb3d,
    0x6e3b7286fea30960, 0x7fb90e03a841f528, 0x00e18f868f96abc1, 0x7416d000dfa18743,
    0x5f271f109c3b8687, 0x1a51a0bf6aa3123a, 0x49854b217302fbea, 0xc47b92cc31e10b32,
    0xa12013cc9d40ab78, 0x0d77ed8dcbc2e7e8, 0xa88b8acbbf094b9d, 0x45c6d1b0ffccf6e3,
    0x6d933ece052dd6e7, 0xb1be48fb1a3e967c, 0x98ca202a53b92775, 0x019ca6443b33a001,
    0x47c9aa2864a59859, 0x3fceb1f0946d78f7, 0xd3b4963f77f0873a, 0x9a3160a7163d3411,
    0x98d182272eccf2a5, 0x04fad21f53aa2b3f, 0x74eda20ef1e432be, 0x3788bc8e92fbc078,
    0x0691106d9963628c, 0xfd36534871bd7710, 0x9fb27e8084aaa905, 0xbccc04f8368c7fd0,
    0x41e51154fa099909, 0x8415745a38fae8a1, 0x0c2ab5f395a60ff3, 0xed995a17d5612c19,
    0xb1922e959abd1af9, 0x8fbebb25868cf72b, 0x0ea0f32e405a2f09, 0xea12bbf3d3a9e815,
    0x9a9310f34421932f, 0xe9dc3f3a0364c4aa, 0x3e52b73eb18bb885, 0x0a05767ce0d12669,
    0x8b69b227c56a62e9, 0xd67f11684c15a7dc, 0x62ce80451ca6f8e7, 0x06a366e34b17ba4c,
    0x22fc18df0e181b93, 0x256752bad416b627, 0x9b3a7fcb4569dd03, 0xcf5951f77d4227f3,
    0x8441ee1f9c0dae11, 0xa493f579c297f419, 0x1e9d7631ce032527, 0x019c0b36c9e2c897,
    0xe6f9db61013ac55c, 0x727cc1eff26b2f57, 0x84455d3013feef19, 0xfda3b1e715fd8156,
    0x82abac1942a34d89, 0x7877f44fefb4ce0c, 0x1d59aa1d56c2d16d, 0x2da5bfd8e053d96b,
    0x1e6b3130507e78a5, 0x6958c4a00bb124ea, 0x091aeb421bf88d86, 0xbd814abfa3ea1bbd,
    0x4abedb038e0f2473, 0x54d35bc175e81795, 0x531fc9fe3c612384, 0xd18c5ae19c4aa21a,
    0x86968118d3317ffa, 0x3a81075162b9356d, 0x724b45cf0024113b, 0xb0e8ab8e7978bea7,
    0x2a2e33b396880334, 0x1f20b4c9e0941c70, 0x6c3b0bcae40dc863, 0xff027d4dc5992386,
    0xc47972ccacc3c51e, 0x339d7d2f752048bd, 0x68c3e95c6e8f496f, 0x1732174ce2b2544b,
    0xde405d1857334c0e, 0xd4933bbae2c4caa9, 0xc7fffcd1b6a15795, 0x0ccca7915c8afcf6,
    0x5a7c2e823be0d6ee, 0xb3aad0c71ba7cdee, 0x37121f7bb293dd6b, 0xee51f30386c7a086,
    0xbc8a7fcead62d393, 0xd8b78cbb02f65211, 0x428a51f0e38535ae, 0xebd470f3ece89907,
    0x24fdae962f04e2a3, 0x5636b1b23882455c, 0x6781bde90632aeb2, 0x963831c2e69bd559,
    0x3dd619a17421315c, 0x2e2f7b448610d949, 0xb14fc54e1b8a9d3a, 0x0ca0d0118f96dfcf,
    0x5bacd16cbbddea19, 0x0fbf308cbc8ad3ef, 0xea8be7849f36c2a4, 0x29b6eecf3d3e8310,
    0x4ffdae65d25038a7, 0x538855db1fcfc463, 0xcb7c81126473fcfa, 0xfe9ea43770903f4a,
    0x8487363c91b3de2c, 0x2b7a5d02f412bce2, 0x84670ed65953111b, 0xa235c90dd73bed33,
];

} // verus!
