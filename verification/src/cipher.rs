//! The symmetric block cipher: a substitution-permutation network on
//! 16-byte blocks with key-dependent round keys (10/12/14 rounds selected by
//! a 128/192/256-bit key), plus whole-buffer decryption and encryption that
//! chain blocks independently.
use vstd::prelude::*;
use vstd::slice::slice_subrange;
use crate::errors::ParserError;

verus! {

/// Multiplication by x in GF(2^8) modulo x^8 + x^4 + x^3 + x + 1.
pub open spec fn xt(b: u8) -> u8 {
    (b << 1) ^ (if b >= 0x80 { 0x1b } else { 0 })
}

/// Multiplication by 9 in GF(2^8).
pub open spec fn g9(b: u8) -> u8 {
    xt(xt(xt(b))) ^ b
}

/// Multiplication by 11 in GF(2^8).
pub open spec fn g11(b: u8) -> u8 {
    xt(xt(xt(b))) ^ xt(b) ^ b
}

/// Multiplication by 13 in GF(2^8).
pub open spec fn g13(b: u8) -> u8 {
    xt(xt(xt(b))) ^ xt(xt(b)) ^ b
}

/// Multiplication by 14 in GF(2^8).
pub open spec fn g14(b: u8) -> u8 {
    xt(xt(xt(b))) ^ xt(xt(b)) ^ xt(b)
}

/// The forward substitution box.
#[verifier::opaque]
pub closed spec fn sbox(b: u8) -> u8 {
    if b == 0 {
        0x63
    } else if b == 1 {
        0x7c
    } else if b == 2 {
        0x77
    } else if b == 3 {
        0x7b
    } else if b == 4 {
        0xf2
    } else if b == 5 {
        0x6b
    } else if b == 6 {
        0x6f
    } else if b == 7 {
        0xc5
    } else if b == 8 {
        0x30
    } else if b == 9 {
        0x01
    } else if b == 10 {
        0x67
    } else if b == 11 {
        0x2b
    } else if b == 12 {
        0xfe
    } else if b == 13 {
        0xd7
    } else if b == 14 {
        0xab
    } else if b == 15 {
        0x76
    } else if b == 16 {
        0xca
    } else if b == 17 {
        0x82
    } else if b == 18 {
        0xc9
    } else if b == 19 {
        0x7d
    } else if b == 20 {
        0xfa
    } else if b == 21 {
        0x59
    } else if b == 22 {
        0x47
    } else if b == 23 {
        0xf0
    } else if b == 24 {
        0xad
    } else if b == 25 {
        0xd4
    } else if b == 26 {
        0xa2
    } else if b == 27 {
        0xaf
    } else if b == 28 {
        0x9c
    } else if b == 29 {
        0xa4
    } else if b == 30 {
        0x72
    } else if b == 31 {
        0xc0
    } else if b == 32 {
        0xb7
    } else if b == 33 {
        0xfd
    } else if b == 34 {
        0x93
    } else if b == 35 {
        0x26
    } else if b == 36 {
        0x36
    } else if b == 37 {
        0x3f
    } else if b == 38 {
        0xf7
    } else if b == 39 {
        0xcc
    } else if b == 40 {
        0x34
    } else if b == 41 {
        0xa5
    } else if b == 42 {
        0xe5
    } else if b == 43 {
        0xf1
    } else if b == 44 {
        0x71
    } else if b == 45 {
        0xd8
    } else if b == 46 {
        0x31
    } else if b == 47 {
        0x15
    } else if b == 48 {
        0x04
    } else if b == 49 {
        0xc7
    } else if b == 50 {
        0x23
    } else if b == 51 {
        0xc3
    } else if b == 52 {
        0x18
    } else if b == 53 {
        0x96
    } else if b == 54 {
        0x05
    } else if b == 55 {
        0x9a
    } else if b == 56 {
        0x07
    } else if b == 57 {
        0x12
    } else if b == 58 {
        0x80
    } else if b == 59 {
        0xe2
    } else if b == 60 {
        0xeb
    } else if b == 61 {
        0x27
    } else if b == 62 {
        0xb2
    } else if b == 63 {
        0x75
    } else if b == 64 {
        0x09
    } else if b == 65 {
        0x83
    } else if b == 66 {
        0x2c
    } else if b == 67 {
        0x1a
    } else if b == 68 {
        0x1b
    } else if b == 69 {
        0x6e
    } else if b == 70 {
        0x5a
    } else if b == 71 {
        0xa0
    } else if b == 72 {
        0x52
    } else if b == 73 {
        0x3b
    } else if b == 74 {
        0xd6
    } else if b == 75 {
        0xb3
    } else if b == 76 {
        0x29
    } else if b == 77 {
        0xe3
    } else if b == 78 {
        0x2f
    } else if b == 79 {
        0x84
    } else if b == 80 {
        0x53
    } else if b == 81 {
        0xd1
    } else if b == 82 {
        0x00
    } else if b == 83 {
        0xed
    } else if b == 84 {
        0x20
    } else if b == 85 {
        0xfc
    } else if b == 86 {
        0xb1
    } else if b == 87 {
        0x5b
    } else if b == 88 {
        0x6a
    } else if b == 89 {
        0xcb
    } else if b == 90 {
        0xbe
    } else if b == 91 {
        0x39
    } else if b == 92 {
        0x4a
    } else if b == 93 {
        0x4c
    } else if b == 94 {
        0x58
    } else if b == 95 {
        0xcf
    } else if b == 96 {
        0xd0
    } else if b == 97 {
        0xef
    } else if b == 98 {
        0xaa
    } else if b == 99 {
        0xfb
    } else if b == 100 {
        0x43
    } else if b == 101 {
        0x4d
    } else if b == 102 {
        0x33
    } else if b == 103 {
        0x85
    } else if b == 104 {
        0x45
    } else if b == 105 {
        0xf9
    } else if b == 106 {
        0x02
    } else if b == 107 {
        0x7f
    } else if b == 108 {
        0x50
    } else if b == 109 {
        0x3c
    } else if b == 110 {
        0x9f
    } else if b == 111 {
        0xa8
    } else if b == 112 {
        0x51
    } else if b == 113 {
        0xa3
    } else if b == 114 {
        0x40
    } else if b == 115 {
        0x8f
    } else if b == 116 {
        0x92
    } else if b == 117 {
        0x9d
    } else if b == 118 {
        0x38
    } else if b == 119 {
        0xf5
    } else if b == 120 {
        0xbc
    } else if b == 121 {
        0xb6
    } else if b == 122 {
        0xda
    } else if b == 123 {
        0x21
    } else if b == 124 {
        0x10
    } else if b == 125 {
        0xff
    } else if b == 126 {
        0xf3
    } else if b == 127 {
        0xd2
    } else if b == 128 {
        0xcd
    } else if b == 129 {
        0x0c
    } else if b == 130 {
        0x13
    } else if b == 131 {
        0xec
    } else if b == 132 {
        0x5f
    } else if b == 133 {
        0x97
    } else if b == 134 {
        0x44
    } else if b == 135 {
        0x17
    } else if b == 136 {
        0xc4
    } else if b == 137 {
        0xa7
    } else if b == 138 {
        0x7e
    } else if b == 139 {
        0x3d
    } else if b == 140 {
        0x64
    } else if b == 141 {
        0x5d
    } else if b == 142 {
        0x19
    } else if b == 143 {
        0x73
    } else if b == 144 {
        0x60
    } else if b == 145 {
        0x81
    } else if b == 146 {
        0x4f
    } else if b == 147 {
        0xdc
    } else if b == 148 {
        0x22
    } else if b == 149 {
        0x2a
    } else if b == 150 {
        0x90
    } else if b == 151 {
        0x88
    } else if b == 152 {
        0x46
    } else if b == 153 {
        0xee
    } else if b == 154 {
        0xb8
    } else if b == 155 {
        0x14
    } else if b == 156 {
        0xde
    } else if b == 157 {
        0x5e
    } else if b == 158 {
        0x0b
    } else if b == 159 {
        0xdb
    } else if b == 160 {
        0xe0
    } else if b == 161 {
        0x32
    } else if b == 162 {
        0x3a
    } else if b == 163 {
        0x0a
    } else if b == 164 {
        0x49
    } else if b == 165 {
        0x06
    } else if b == 166 {
        0x24
    } else if b == 167 {
        0x5c
    } else if b == 168 {
        0xc2
    } else if b == 169 {
        0xd3
    } else if b == 170 {
        0xac
    } else if b == 171 {
        0x62
    } else if b == 172 {
        0x91
    } else if b == 173 {
        0x95
    } else if b == 174 {
        0xe4
    } else if b == 175 {
        0x79
    } else if b == 176 {
        0xe7
    } else if b == 177 {
        0xc8
    } else if b == 178 {
        0x37
    } else if b == 179 {
        0x6d
    } else if b == 180 {
        0x8d
    } else if b == 181 {
        0xd5
    } else if b == 182 {
        0x4e
    } else if b == 183 {
        0xa9
    } else if b == 184 {
        0x6c
    } else if b == 185 {
        0x56
    } else if b == 186 {
        0xf4
    } else if b == 187 {
        0xea
    } else if b == 188 {
        0x65
    } else if b == 189 {
        0x7a
    } else if b == 190 {
        0xae
    } else if b == 191 {
        0x08
    } else if b == 192 {
        0xba
    } else if b == 193 {
        0x78
    } else if b == 194 {
        0x25
    } else if b == 195 {
        0x2e
    } else if b == 196 {
        0x1c
    } else if b == 197 {
        0xa6
    } else if b == 198 {
        0xb4
    } else if b == 199 {
        0xc6
    } else if b == 200 {
        0xe8
    } else if b == 201 {
        0xdd
    } else if b == 202 {
        0x74
    } else if b == 203 {
        0x1f
    } else if b == 204 {
        0x4b
    } else if b == 205 {
        0xbd
    } else if b == 206 {
        0x8b
    } else if b == 207 {
        0x8a
    } else if b == 208 {
        0x70
    } else if b == 209 {
        0x3e
    } else if b == 210 {
        0xb5
    } else if b == 211 {
        0x66
    } else if b == 212 {
        0x48
    } else if b == 213 {
        0x03
    } else if b == 214 {
        0xf6
    } else if b == 215 {
        0x0e
    } else if b == 216 {
        0x61
    } else if b == 217 {
        0x35
    } else if b == 218 {
        0x57
    } else if b == 219 {
        0xb9
    } else if b == 220 {
        0x86
    } else if b == 221 {
        0xc1
    } else if b == 222 {
        0x1d
    } else if b == 223 {
        0x9e
    } else if b == 224 {
        0xe1
    } else if b == 225 {
        0xf8
    } else if b == 226 {
        0x98
    } else if b == 227 {
        0x11
    } else if b == 228 {
        0x69
    } else if b == 229 {
        0xd9
    } else if b == 230 {
        0x8e
    } else if b == 231 {
        0x94
    } else if b == 232 {
        0x9b
    } else if b == 233 {
        0x1e
    } else if b == 234 {
        0x87
    } else if b == 235 {
        0xe9
    } else if b == 236 {
        0xce
    } else if b == 237 {
        0x55
    } else if b == 238 {
        0x28
    } else if b == 239 {
        0xdf
    } else if b == 240 {
        0x8c
    } else if b == 241 {
        0xa1
    } else if b == 242 {
        0x89
    } else if b == 243 {
        0x0d
    } else if b == 244 {
        0xbf
    } else if b == 245 {
        0xe6
    } else if b == 246 {
        0x42
    } else if b == 247 {
        0x68
    } else if b == 248 {
        0x41
    } else if b == 249 {
        0x99
    } else if b == 250 {
        0x2d
    } else if b == 251 {
        0x0f
    } else if b == 252 {
        0xb0
    } else if b == 253 {
        0x54
    } else if b == 254 {
        0xbb
    } else {
        0x16
    }
}

/// The inverse substitution box.
#[verifier::opaque]
pub closed spec fn inv_sbox(b: u8) -> u8 {
    if b == 0 {
        0x52
    } else if b == 1 {
        0x09
    } else if b == 2 {
        0x6a
    } else if b == 3 {
        0xd5
    } else if b == 4 {
        0x30
    } else if b == 5 {
        0x36
    } else if b == 6 {
        0xa5
    } else if b == 7 {
        0x38
    } else if b == 8 {
        0xbf
    } else if b == 9 {
        0x40
    } else if b == 10 {
        0xa3
    } else if b == 11 {
        0x9e
    } else if b == 12 {
        0x81
    } else if b == 13 {
        0xf3
    } else if b == 14 {
        0xd7
    } else if b == 15 {
        0xfb
    } else if b == 16 {
        0x7c
    } else if b == 17 {
        0xe3
    } else if b == 18 {
        0x39
    } else if b == 19 {
        0x82
    } else if b == 20 {
        0x9b
    } else if b == 21 {
        0x2f
    } else if b == 22 {
        0xff
    } else if b == 23 {
        0x87
    } else if b == 24 {
        0x34
    } else if b == 25 {
        0x8e
    } else if b == 26 {
        0x43
    } else if b == 27 {
        0x44
    } else if b == 28 {
        0xc4
    } else if b == 29 {
        0xde
    } else if b == 30 {
        0xe9
    } else if b == 31 {
        0xcb
    } else if b == 32 {
        0x54
    } else if b == 33 {
        0x7b
    } else if b == 34 {
        0x94
    } else if b == 35 {
        0x32
    } else if b == 36 {
        0xa6
    } else if b == 37 {
        0xc2
    } else if b == 38 {
        0x23
    } else if b == 39 {
        0x3d
    } else if b == 40 {
        0xee
    } else if b == 41 {
        0x4c
    } else if b == 42 {
        0x95
    } else if b == 43 {
        0x0b
    } else if b == 44 {
        0x42
    } else if b == 45 {
        0xfa
    } else if b == 46 {
        0xc3
    } else if b == 47 {
        0x4e
    } else if b == 48 {
        0x08
    } else if b == 49 {
        0x2e
    } else if b == 50 {
        0xa1
    } else if b == 51 {
        0x66
    } else if b == 52 {
        0x28
    } else if b == 53 {
        0xd9
    } else if b == 54 {
        0x24
    } else if b == 55 {
        0xb2
    } else if b == 56 {
        0x76
    } else if b == 57 {
        0x5b
    } else if b == 58 {
        0xa2
    } else if b == 59 {
        0x49
    } else if b == 60 {
        0x6d
    } else if b == 61 {
        0x8b
    } else if b == 62 {
        0xd1
    } else if b == 63 {
        0x25
    } else if b == 64 {
        0x72
    } else if b == 65 {
        0xf8
    } else if b == 66 {
        0xf6
    } else if b == 67 {
        0x64
    } else if b == 68 {
        0x86
    } else if b == 69 {
        0x68
    } else if b == 70 {
        0x98
    } else if b == 71 {
        0x16
    } else if b == 72 {
        0xd4
    } else if b == 73 {
        0xa4
    } else if b == 74 {
        0x5c
    } else if b == 75 {
        0xcc
    } else if b == 76 {
        0x5d
    } else if b == 77 {
        0x65
    } else if b == 78 {
        0xb6
    } else if b == 79 {
        0x92
    } else if b == 80 {
        0x6c
    } else if b == 81 {
        0x70
    } else if b == 82 {
        0x48
    } else if b == 83 {
        0x50
    } else if b == 84 {
        0xfd
    } else if b == 85 {
        0xed
    } else if b == 86 {
        0xb9
    } else if b == 87 {
        0xda
    } else if b == 88 {
        0x5e
    } else if b == 89 {
        0x15
    } else if b == 90 {
        0x46
    } else if b == 91 {
        0x57
    } else if b == 92 {
        0xa7
    } else if b == 93 {
        0x8d
    } else if b == 94 {
        0x9d
    } else if b == 95 {
        0x84
    } else if b == 96 {
        0x90
    } else if b == 97 {
        0xd8
    } else if b == 98 {
        0xab
    } else if b == 99 {
        0x00
    } else if b == 100 {
        0x8c
    } else if b == 101 {
        0xbc
    } else if b == 102 {
        0xd3
    } else if b == 103 {
        0x0a
    } else if b == 104 {
        0xf7
    } else if b == 105 {
        0xe4
    } else if b == 106 {
        0x58
    } else if b == 107 {
        0x05
    } else if b == 108 {
        0xb8
    } else if b == 109 {
        0xb3
    } else if b == 110 {
        0x45
    } else if b == 111 {
        0x06
    } else if b == 112 {
        0xd0
    } else if b == 113 {
        0x2c
    } else if b == 114 {
        0x1e
    } else if b == 115 {
        0x8f
    } else if b == 116 {
        0xca
    } else if b == 117 {
        0x3f
    } else if b == 118 {
        0x0f
    } else if b == 119 {
        0x02
    } else if b == 120 {
        0xc1
    } else if b == 121 {
        0xaf
    } else if b == 122 {
        0xbd
    } else if b == 123 {
        0x03
    } else if b == 124 {
        0x01
    } else if b == 125 {
        0x13
    } else if b == 126 {
        0x8a
    } else if b == 127 {
        0x6b
    } else if b == 128 {
        0x3a
    } else if b == 129 {
        0x91
    } else if b == 130 {
        0x11
    } else if b == 131 {
        0x41
    } else if b == 132 {
        0x4f
    } else if b == 133 {
        0x67
    } else if b == 134 {
        0xdc
    } else if b == 135 {
        0xea
    } else if b == 136 {
        0x97
    } else if b == 137 {
        0xf2
    } else if b == 138 {
        0xcf
    } else if b == 139 {
        0xce
    } else if b == 140 {
        0xf0
    } else if b == 141 {
        0xb4
    } else if b == 142 {
        0xe6
    } else if b == 143 {
        0x73
    } else if b == 144 {
        0x96
    } else if b == 145 {
        0xac
    } else if b == 146 {
        0x74
    } else if b == 147 {
        0x22
    } else if b == 148 {
        0xe7
    } else if b == 149 {
        0xad
    } else if b == 150 {
        0x35
    } else if b == 151 {
        0x85
    } else if b == 152 {
        0xe2
    } else if b == 153 {
        0xf9
    } else if b == 154 {
        0x37
    } else if b == 155 {
        0xe8
    } else if b == 156 {
        0x1c
    } else if b == 157 {
        0x75
    } else if b == 158 {
        0xdf
    } else if b == 159 {
        0x6e
    } else if b == 160 {
        0x47
    } else if b == 161 {
        0xf1
    } else if b == 162 {
        0x1a
    } else if b == 163 {
        0x71
    } else if b == 164 {
        0x1d
    } else if b == 165 {
        0x29
    } else if b == 166 {
        0xc5
    } else if b == 167 {
        0x89
    } else if b == 168 {
        0x6f
    } else if b == 169 {
        0xb7
    } else if b == 170 {
        0x62
    } else if b == 171 {
        0x0e
    } else if b == 172 {
        0xaa
    } else if b == 173 {
        0x18
    } else if b == 174 {
        0xbe
    } else if b == 175 {
        0x1b
    } else if b == 176 {
        0xfc
    } else if b == 177 {
        0x56
    } else if b == 178 {
        0x3e
    } else if b == 179 {
        0x4b
    } else if b == 180 {
        0xc6
    } else if b == 181 {
        0xd2
    } else if b == 182 {
        0x79
    } else if b == 183 {
        0x20
    } else if b == 184 {
        0x9a
    } else if b == 185 {
        0xdb
    } else if b == 186 {
        0xc0
    } else if b == 187 {
        0xfe
    } else if b == 188 {
        0x78
    } else if b == 189 {
        0xcd
    } else if b == 190 {
        0x5a
    } else if b == 191 {
        0xf4
    } else if b == 192 {
        0x1f
    } else if b == 193 {
        0xdd
    } else if b == 194 {
        0xa8
    } else if b == 195 {
        0x33
    } else if b == 196 {
        0x88
    } else if b == 197 {
        0x07
    } else if b == 198 {
        0xc7
    } else if b == 199 {
        0x31
    } else if b == 200 {
        0xb1
    } else if b == 201 {
        0x12
    } else if b == 202 {
        0x10
    } else if b == 203 {
        0x59
    } else if b == 204 {
        0x27
    } else if b == 205 {
        0x80
    } else if b == 206 {
        0xec
    } else if b == 207 {
        0x5f
    } else if b == 208 {
        0x60
    } else if b == 209 {
        0x51
    } else if b == 210 {
        0x7f
    } else if b == 211 {
        0xa9
    } else if b == 212 {
        0x19
    } else if b == 213 {
        0xb5
    } else if b == 214 {
        0x4a
    } else if b == 215 {
        0x0d
    } else if b == 216 {
        0x2d
    } else if b == 217 {
        0xe5
    } else if b == 218 {
        0x7a
    } else if b == 219 {
        0x9f
    } else if b == 220 {
        0x93
    } else if b == 221 {
        0xc9
    } else if b == 222 {
        0x9c
    } else if b == 223 {
        0xef
    } else if b == 224 {
        0xa0
    } else if b == 225 {
        0xe0
    } else if b == 226 {
        0x3b
    } else if b == 227 {
        0x4d
    } else if b == 228 {
        0xae
    } else if b == 229 {
        0x2a
    } else if b == 230 {
        0xf5
    } else if b == 231 {
        0xb0
    } else if b == 232 {
        0xc8
    } else if b == 233 {
        0xeb
    } else if b == 234 {
        0xbb
    } else if b == 235 {
        0x3c
    } else if b == 236 {
        0x83
    } else if b == 237 {
        0x53
    } else if b == 238 {
        0x99
    } else if b == 239 {
        0x61
    } else if b == 240 {
        0x17
    } else if b == 241 {
        0x2b
    } else if b == 242 {
        0x04
    } else if b == 243 {
        0x7e
    } else if b == 244 {
        0xba
    } else if b == 245 {
        0x77
    } else if b == 246 {
        0xd6
    } else if b == 247 {
        0x26
    } else if b == 248 {
        0xe1
    } else if b == 249 {
        0x69
    } else if b == 250 {
        0x14
    } else if b == 251 {
        0x63
    } else if b == 252 {
        0x55
    } else if b == 253 {
        0x21
    } else if b == 254 {
        0x0c
    } else {
        0x7d
    }
}

/// Forward substitution box lookup.
fn sbox_x(b: u8) -> (r: u8)
    ensures
        r == sbox(b),
{
    proof {
        reveal(sbox);
    }
    match b {
        0u8 => 0x63,
        1u8 => 0x7c,
        2u8 => 0x77,
        3u8 => 0x7b,
        4u8 => 0xf2,
        5u8 => 0x6b,
        6u8 => 0x6f,
        7u8 => 0xc5,
        8u8 => 0x30,
        9u8 => 0x01,
        10u8 => 0x67,
        11u8 => 0x2b,
        12u8 => 0xfe,
        13u8 => 0xd7,
        14u8 => 0xab,
        15u8 => 0x76,
        16u8 => 0xca,
        17u8 => 0x82,
        18u8 => 0xc9,
        19u8 => 0x7d,
        20u8 => 0xfa,
        21u8 => 0x59,
        22u8 => 0x47,
        23u8 => 0xf0,
        24u8 => 0xad,
        25u8 => 0xd4,
        26u8 => 0xa2,
        27u8 => 0xaf,
        28u8 => 0x9c,
        29u8 => 0xa4,
        30u8 => 0x72,
        31u8 => 0xc0,
        32u8 => 0xb7,
        33u8 => 0xfd,
        34u8 => 0x93,
        35u8 => 0x26,
        36u8 => 0x36,
        37u8 => 0x3f,
        38u8 => 0xf7,
        39u8 => 0xcc,
        40u8 => 0x34,
        41u8 => 0xa5,
        42u8 => 0xe5,
        43u8 => 0xf1,
        44u8 => 0x71,
        45u8 => 0xd8,
        46u8 => 0x31,
        47u8 => 0x15,
        48u8 => 0x04,
        49u8 => 0xc7,
        50u8 => 0x23,
        51u8 => 0xc3,
        52u8 => 0x18,
        53u8 => 0x96,
        54u8 => 0x05,
        55u8 => 0x9a,
        56u8 => 0x07,
        57u8 => 0x12,
        58u8 => 0x80,
        59u8 => 0xe2,
        60u8 => 0xeb,
        61u8 => 0x27,
        62u8 => 0xb2,
        63u8 => 0x75,
        64u8 => 0x09,
        65u8 => 0x83,
        66u8 => 0x2c,
        67u8 => 0x1a,
        68u8 => 0x1b,
        69u8 => 0x6e,
        70u8 => 0x5a,
        71u8 => 0xa0,
        72u8 => 0x52,
        73u8 => 0x3b,
        74u8 => 0xd6,
        75u8 => 0xb3,
        76u8 => 0x29,
        77u8 => 0xe3,
        78u8 => 0x2f,
        79u8 => 0x84,
        80u8 => 0x53,
        81u8 => 0xd1,
        82u8 => 0x00,
        83u8 => 0xed,
        84u8 => 0x20,
        85u8 => 0xfc,
        86u8 => 0xb1,
        87u8 => 0x5b,
        88u8 => 0x6a,
        89u8 => 0xcb,
        90u8 => 0xbe,
        91u8 => 0x39,
        92u8 => 0x4a,
        93u8 => 0x4c,
        94u8 => 0x58,
        95u8 => 0xcf,
        96u8 => 0xd0,
        97u8 => 0xef,
        98u8 => 0xaa,
        99u8 => 0xfb,
        100u8 => 0x43,
        101u8 => 0x4d,
        102u8 => 0x33,
        103u8 => 0x85,
        104u8 => 0x45,
        105u8 => 0xf9,
        106u8 => 0x02,
        107u8 => 0x7f,
        108u8 => 0x50,
        109u8 => 0x3c,
        110u8 => 0x9f,
        111u8 => 0xa8,
        112u8 => 0x51,
        113u8 => 0xa3,
        114u8 => 0x40,
        115u8 => 0x8f,
        116u8 => 0x92,
        117u8 => 0x9d,
        118u8 => 0x38,
        119u8 => 0xf5,
        120u8 => 0xbc,
        121u8 => 0xb6,
        122u8 => 0xda,
        123u8 => 0x21,
        124u8 => 0x10,
        125u8 => 0xff,
        126u8 => 0xf3,
        127u8 => 0xd2,
        128u8 => 0xcd,
        129u8 => 0x0c,
        130u8 => 0x13,
        131u8 => 0xec,
        132u8 => 0x5f,
        133u8 => 0x97,
        134u8 => 0x44,
        135u8 => 0x17,
        136u8 => 0xc4,
        137u8 => 0xa7,
        138u8 => 0x7e,
        139u8 => 0x3d,
        140u8 => 0x64,
        141u8 => 0x5d,
        142u8 => 0x19,
        143u8 => 0x73,
        144u8 => 0x60,
        145u8 => 0x81,
        146u8 => 0x4f,
        147u8 => 0xdc,
        148u8 => 0x22,
        149u8 => 0x2a,
        150u8 => 0x90,
        151u8 => 0x88,
        152u8 => 0x46,
        153u8 => 0xee,
        154u8 => 0xb8,
        155u8 => 0x14,
        156u8 => 0xde,
        157u8 => 0x5e,
        158u8 => 0x0b,
        159u8 => 0xdb,
        160u8 => 0xe0,
        161u8 => 0x32,
        162u8 => 0x3a,
        163u8 => 0x0a,
        164u8 => 0x49,
        165u8 => 0x06,
        166u8 => 0x24,
        167u8 => 0x5c,
        168u8 => 0xc2,
        169u8 => 0xd3,
        170u8 => 0xac,
        171u8 => 0x62,
        172u8 => 0x91,
        173u8 => 0x95,
        174u8 => 0xe4,
        175u8 => 0x79,
        176u8 => 0xe7,
        177u8 => 0xc8,
        178u8 => 0x37,
        179u8 => 0x6d,
        180u8 => 0x8d,
        181u8 => 0xd5,
        182u8 => 0x4e,
        183u8 => 0xa9,
        184u8 => 0x6c,
        185u8 => 0x56,
        186u8 => 0xf4,
        187u8 => 0xea,
        188u8 => 0x65,
        189u8 => 0x7a,
        190u8 => 0xae,
        191u8 => 0x08,
        192u8 => 0xba,
        193u8 => 0x78,
        194u8 => 0x25,
        195u8 => 0x2e,
        196u8 => 0x1c,
        197u8 => 0xa6,
        198u8 => 0xb4,
        199u8 => 0xc6,
        200u8 => 0xe8,
        201u8 => 0xdd,
        202u8 => 0x74,
        203u8 => 0x1f,
        204u8 => 0x4b,
        205u8 => 0xbd,
        206u8 => 0x8b,
        207u8 => 0x8a,
        208u8 => 0x70,
        209u8 => 0x3e,
        210u8 => 0xb5,
        211u8 => 0x66,
        212u8 => 0x48,
        213u8 => 0x03,
        214u8 => 0xf6,
        215u8 => 0x0e,
        216u8 => 0x61,
        217u8 => 0x35,
        218u8 => 0x57,
        219u8 => 0xb9,
        220u8 => 0x86,
        221u8 => 0xc1,
        222u8 => 0x1d,
        223u8 => 0x9e,
        224u8 => 0xe1,
        225u8 => 0xf8,
        226u8 => 0x98,
        227u8 => 0x11,
        228u8 => 0x69,
        229u8 => 0xd9,
        230u8 => 0x8e,
        231u8 => 0x94,
        232u8 => 0x9b,
        233u8 => 0x1e,
        234u8 => 0x87,
        235u8 => 0xe9,
        236u8 => 0xce,
        237u8 => 0x55,
        238u8 => 0x28,
        239u8 => 0xdf,
        240u8 => 0x8c,
        241u8 => 0xa1,
        242u8 => 0x89,
        243u8 => 0x0d,
        244u8 => 0xbf,
        245u8 => 0xe6,
        246u8 => 0x42,
        247u8 => 0x68,
        248u8 => 0x41,
        249u8 => 0x99,
        250u8 => 0x2d,
        251u8 => 0x0f,
        252u8 => 0xb0,
        253u8 => 0x54,
        254u8 => 0xbb,
        _ => 0x16,
    }
}

/// Inverse substitution box lookup.
fn inv_sbox_x(b: u8) -> (r: u8)
    ensures
        r == inv_sbox(b),
{
    proof {
        reveal(inv_sbox);
    }
    match b {
        0u8 => 0x52,
        1u8 => 0x09,
        2u8 => 0x6a,
        3u8 => 0xd5,
        4u8 => 0x30,
        5u8 => 0x36,
        6u8 => 0xa5,
        7u8 => 0x38,
        8u8 => 0xbf,
        9u8 => 0x40,
        10u8 => 0xa3,
        11u8 => 0x9e,
        12u8 => 0x81,
        13u8 => 0xf3,
        14u8 => 0xd7,
        15u8 => 0xfb,
        16u8 => 0x7c,
        17u8 => 0xe3,
        18u8 => 0x39,
        19u8 => 0x82,
        20u8 => 0x9b,
        21u8 => 0x2f,
        22u8 => 0xff,
        23u8 => 0x87,
        24u8 => 0x34,
        25u8 => 0x8e,
        26u8 => 0x43,
        27u8 => 0x44,
        28u8 => 0xc4,
        29u8 => 0xde,
        30u8 => 0xe9,
        31u8 => 0xcb,
        32u8 => 0x54,
        33u8 => 0x7b,
        34u8 => 0x94,
        35u8 => 0x32,
        36u8 => 0xa6,
        37u8 => 0xc2,
        38u8 => 0x23,
        39u8 => 0x3d,
        40u8 => 0xee,
        41u8 => 0x4c,
        42u8 => 0x95,
        43u8 => 0x0b,
        44u8 => 0x42,
        45u8 => 0xfa,
        46u8 => 0xc3,
        47u8 => 0x4e,
        48u8 => 0x08,
        49u8 => 0x2e,
        50u8 => 0xa1,
        51u8 => 0x66,
        52u8 => 0x28,
        53u8 => 0xd9,
        54u8 => 0x24,
        55u8 => 0xb2,
        56u8 => 0x76,
        57u8 => 0x5b,
        58u8 => 0xa2,
        59u8 => 0x49,
        60u8 => 0x6d,
        61u8 => 0x8b,
        62u8 => 0xd1,
        63u8 => 0x25,
        64u8 => 0x72,
        65u8 => 0xf8,
        66u8 => 0xf6,
        67u8 => 0x64,
        68u8 => 0x86,
        69u8 => 0x68,
        70u8 => 0x98,
        71u8 => 0x16,
        72u8 => 0xd4,
        73u8 => 0xa4,
        74u8 => 0x5c,
        75u8 => 0xcc,
        76u8 => 0x5d,
        77u8 => 0x65,
        78u8 => 0xb6,
        79u8 => 0x92,
        80u8 => 0x6c,
        81u8 => 0x70,
        82u8 => 0x48,
        83u8 => 0x50,
        84u8 => 0xfd,
        85u8 => 0xed,
        86u8 => 0xb9,
        87u8 => 0xda,
        88u8 => 0x5e,
        89u8 => 0x15,
        90u8 => 0x46,
        91u8 => 0x57,
        92u8 => 0xa7,
        93u8 => 0x8d,
        94u8 => 0x9d,
        95u8 => 0x84,
        96u8 => 0x90,
        97u8 => 0xd8,
        98u8 => 0xab,
        99u8 => 0x00,
        100u8 => 0x8c,
        101u8 => 0xbc,
        102u8 => 0xd3,
        103u8 => 0x0a,
        104u8 => 0xf7,
        105u8 => 0xe4,
        106u8 => 0x58,
        107u8 => 0x05,
        108u8 => 0xb8,
        109u8 => 0xb3,
        110u8 => 0x45,
        111u8 => 0x06,
        112u8 => 0xd0,
        113u8 => 0x2c,
        114u8 => 0x1e,
        115u8 => 0x8f,
        116u8 => 0xca,
        117u8 => 0x3f,
        118u8 => 0x0f,
        119u8 => 0x02,
        120u8 => 0xc1,
        121u8 => 0xaf,
        122u8 => 0xbd,
        123u8 => 0x03,
        124u8 => 0x01,
        125u8 => 0x13,
        126u8 => 0x8a,
        127u8 => 0x6b,
        128u8 => 0x3a,
        129u8 => 0x91,
        130u8 => 0x11,
        131u8 => 0x41,
        132u8 => 0x4f,
        133u8 => 0x67,
        134u8 => 0xdc,
        135u8 => 0xea,
        136u8 => 0x97,
        137u8 => 0xf2,
        138u8 => 0xcf,
        139u8 => 0xce,
        140u8 => 0xf0,
        141u8 => 0xb4,
        142u8 => 0xe6,
        143u8 => 0x73,
        144u8 => 0x96,
        145u8 => 0xac,
        146u8 => 0x74,
        147u8 => 0x22,
        148u8 => 0xe7,
        149u8 => 0xad,
        150u8 => 0x35,
        151u8 => 0x85,
        152u8 => 0xe2,
        153u8 => 0xf9,
        154u8 => 0x37,
        155u8 => 0xe8,
        156u8 => 0x1c,
        157u8 => 0x75,
        158u8 => 0xdf,
        159u8 => 0x6e,
        160u8 => 0x47,
        161u8 => 0xf1,
        162u8 => 0x1a,
        163u8 => 0x71,
        164u8 => 0x1d,
        165u8 => 0x29,
        166u8 => 0xc5,
        167u8 => 0x89,
        168u8 => 0x6f,
        169u8 => 0xb7,
        170u8 => 0x62,
        171u8 => 0x0e,
        172u8 => 0xaa,
        173u8 => 0x18,
        174u8 => 0xbe,
        175u8 => 0x1b,
        176u8 => 0xfc,
        177u8 => 0x56,
        178u8 => 0x3e,
        179u8 => 0x4b,
        180u8 => 0xc6,
        181u8 => 0xd2,
        182u8 => 0x79,
        183u8 => 0x20,
        184u8 => 0x9a,
        185u8 => 0xdb,
        186u8 => 0xc0,
        187u8 => 0xfe,
        188u8 => 0x78,
        189u8 => 0xcd,
        190u8 => 0x5a,
        191u8 => 0xf4,
        192u8 => 0x1f,
        193u8 => 0xdd,
        194u8 => 0xa8,
        195u8 => 0x33,
        196u8 => 0x88,
        197u8 => 0x07,
        198u8 => 0xc7,
        199u8 => 0x31,
        200u8 => 0xb1,
        201u8 => 0x12,
        202u8 => 0x10,
        203u8 => 0x59,
        204u8 => 0x27,
        205u8 => 0x80,
        206u8 => 0xec,
        207u8 => 0x5f,
        208u8 => 0x60,
        209u8 => 0x51,
        210u8 => 0x7f,
        211u8 => 0xa9,
        212u8 => 0x19,
        213u8 => 0xb5,
        214u8 => 0x4a,
        215u8 => 0x0d,
        216u8 => 0x2d,
        217u8 => 0xe5,
        218u8 => 0x7a,
        219u8 => 0x9f,
        220u8 => 0x93,
        221u8 => 0xc9,
        222u8 => 0x9c,
        223u8 => 0xef,
        224u8 => 0xa0,
        225u8 => 0xe0,
        226u8 => 0x3b,
        227u8 => 0x4d,
        228u8 => 0xae,
        229u8 => 0x2a,
        230u8 => 0xf5,
        231u8 => 0xb0,
        232u8 => 0xc8,
        233u8 => 0xeb,
        234u8 => 0xbb,
        235u8 => 0x3c,
        236u8 => 0x83,
        237u8 => 0x53,
        238u8 => 0x99,
        239u8 => 0x61,
        240u8 => 0x17,
        241u8 => 0x2b,
        242u8 => 0x04,
        243u8 => 0x7e,
        244u8 => 0xba,
        245u8 => 0x77,
        246u8 => 0xd6,
        247u8 => 0x26,
        248u8 => 0xe1,
        249u8 => 0x69,
        250u8 => 0x14,
        251u8 => 0x63,
        252u8 => 0x55,
        253u8 => 0x21,
        254u8 => 0x0c,
        _ => 0x7d,
    }
}

/// The two substitution boxes invert one another at one point.
#[verifier::spinoff_prover]
#[verifier::rlimit(100)]
proof fn lemma_sbox_case(b: u8)
    ensures
        inv_sbox(sbox(b)) == b,
        sbox(inv_sbox(b)) == b,
{
    reveal(sbox);
    reveal(inv_sbox);
    if b == 0 {
        assert(inv_sbox(sbox(b)) == b);
        assert(sbox(inv_sbox(b)) == b);
    } else if b == 1 {
        assert(inv_sbox(sbox(b)) == b);
        assert(sbox(inv_sbox(b)) == b);
    } else if b == 2 {
        assert(inv_sbox(sbox(b)) == b);
        assert(sbox(inv_sbox(b)) == b);
    } else if b == 3 {
        assert(inv_sbox(sbox(b)) == b);
        assert(sbox(inv_sbox(b)) == b);
    } else if b == 4 {
        assert(inv_sbox(sbox(b)) == b);
        assert(sbox(inv_sbox(b)) == b);
    } else if b == 5 {
        assert(inv_sbox(sbox(b)) == b);
        assert(sbox(inv_sbox(b)) == b);
    } else if b == 6 {
        assert(inv_sbox(sbox(b)) == b);
        assert(sbox(inv_sbox(b)) == b);
    } else if b == 7 {
        assert(inv_sbox(sbox(b)) == b);
        assert(sbox(inv_sbox(b)) == b);
    } else if b == 8 {
        assert(inv_sbox(sbox(b)) == b);
        assert(sbox(inv_sbox(b)) == b);
    } else if b == 9 {
        assert(inv_sbox(sbox(b)) == b);
        assert(sbox(inv_sbox(b)) == b);
    } else if b == 10 {
        assert(inv_sbox(sbox(b)) == b);
        assert(sbox(inv_sbox(b)) == b);
    } else if b == 11 {
        assert(inv_sbox(sbox(b)) == b);
        assert(sbox(inv_sbox(b)) == b);
    } else if b == 12 {
        assert(inv_sbox(sbox(b)) == b);
        assert(sbox(inv_sbox(b)) == b);
    } else if b == 13 {
        assert(inv_sbox(sbox(b)) == b);
        assert(sbox(inv_sbox(b)) == b);
    } else if b == 14 {
        assert(inv_sbox(sbox(b)) == b);
        assert(sbox(inv_sbox(b)) == b);
    } else if b == 15 {
        assert(inv_sbox(sbox(b)) == b);
        assert(sbox(inv_sbox(b)) == b);
    } else if b == 16 {
        assert(inv_sbox(sbox(b)) == b);
        assert(sbox(inv_sbox(b)) == b);
    } else if b == 17 {
        assert(inv_sbox(sbox(b)) == b);
        assert(sbox(inv_sbox(b)) == b);
    } else if b == 18 {
        assert(inv_sbox(sbox(b)) == b);
        assert(sbox(inv_sbox(b)) == b);
    } else if b == 19 {
        assert(inv_sbox(sbox(b)) == b);
        assert(sbox(inv_sbox(b)) == b);
    } else if b == 20 {
        assert(inv_sbox(sbox(b)) == b);
        assert(sbox(inv_sbox(b)) == b);
    } else if b == 21 {
        assert(inv_sbox(sbox(b)) == b);
        assert(sbox(inv_sbox(b)) == b);
    } else if b == 22 {
        assert(inv_sbox(sbox(b)) == b);
        assert(sbox(inv_sbox(b)) == b);
    } else if b == 23 {
        assert(inv_sbox(sbox(b)) == b);
        assert(sbox(inv_sbox(b)) == b);
    } else if b == 24 {
        assert(inv_sbox(sbox(b)) == b);
        assert(sbox(inv_sbox(b)) == b);
    } else if b == 25 {
        assert(inv_sbox(sbox(b)) == b);
        assert(sbox(inv_sbox(b)) == b);
    } else if b == 26 {
        assert(inv_sbox(sbox(b)) == b);
        assert(sbox(inv_sbox(b)) == b);
    } else if b == 27 {
        assert(inv_sbox(sbox(b)) == b);
        assert(sbox(inv_sbox(b)) == b);
    } else if b == 28 {
        assert(inv_sbox(sbox(b)) == b);
        assert(sbox(inv_sbox(b)) == b);
    } else if b == 29 {
        assert(inv_sbox(sbox(b)) == b);
        assert(sbox(inv_sbox(b)) == b);
    } else if b == 30 {
        assert(inv_sbox(sbox(b)) == b);
        assert(sbox(inv_sbox(b)) == b);
    } else if b == 31 {
        assert(inv_sbox(sbox(b)) == b);
        assert(sbox(inv_sbox(b)) == b);
    } else if b == 32 {
        assert(inv_sbox(sbox(b)) == b);
        assert(sbox(inv_sbox(b)) == b);
    } else if b == 33 {
        assert(inv_sbox(sbox(b)) == b);
        assert(sbox(inv_sbox(b)) == b);
    } else if b == 34 {
        assert(inv_sbox(sbox(b)) == b);
        assert(sbox(inv_sbox(b)) == b);
    } else if b == 35 {
        assert(inv_sbox(sbox(b)) == b);
        assert(sbox(inv_sbox(b)) == b);
    } else if b == 36 {
        assert(inv_sbox(sbox(b)) == b);
        assert(sbox(inv_sbox(b)) == b);
    } else if b == 37 {
        assert(inv_sbox(sbox(b)) == b);
        assert(sbox(inv_sbox(b)) == b);
    } else if b == 38 {
        assert(inv_sbox(sbox(b)) == b);
        assert(sbox(inv_sbox(b)) == b);
    } else if b == 39 {
        assert(inv_sbox(sbox(b)) == b);
        assert(sbox(inv_sbox(b)) == b);
    } else if b == 40 {
        assert(inv_sbox(sbox(b)) == b);
        assert(sbox(inv_sbox(b)) == b);
    } else if b == 41 {
        assert(inv_sbox(sbox(b)) == b);
        assert(sbox(inv_sbox(b)) == b);
    } else if b == 42 {
        assert(inv_sbox(sbox(b)) == b);
        assert(sbox(inv_sbox(b)) == b);
    } else if b == 43 {
        assert(inv_sbox(sbox(b)) == b);
        assert(sbox(inv_sbox(b)) == b);
    } else if b == 44 {
        assert(inv_sbox(sbox(b)) == b);
        assert(sbox(inv_sbox(b)) == b);
    } else if b == 45 {
        assert(inv_sbox(sbox(b)) == b);
        assert(sbox(inv_sbox(b)) == b);
    } else if b == 46 {
        assert(inv_sbox(sbox(b)) == b);
        assert(sbox(inv_sbox(b)) == b);
    } else if b == 47 {
        assert(inv_sbox(sbox(b)) == b);
        assert(sbox(inv_sbox(b)) == b);
    } else if b == 48 {
        assert(inv_sbox(sbox(b)) == b);
        assert(sbox(inv_sbox(b)) == b);
    } else if b == 49 {
        assert(inv_sbox(sbox(b)) == b);
        assert(sbox(inv_sbox(b)) == b);
    } else if b == 50 {
        assert(inv_sbox(sbox(b)) == b);
        assert(sbox(inv_sbox(b)) == b);
    } else if b == 51 {
        assert(inv_sbox(sbox(b)) == b);
        assert(sbox(inv_sbox(b)) == b);
    } else if b == 52 {
        assert(inv_sbox(sbox(b)) == b);
        assert(sbox(inv_sbox(b)) == b);
    } else if b == 53 {
        assert(inv_sbox(sbox(b)) == b);
        assert(sbox(inv_sbox(b)) == b);
    } else if b == 54 {
        assert(inv_sbox(sbox(b)) == b);
        assert(sbox(inv_sbox(b)) == b);
    } else if b == 55 {
        assert(inv_sbox(sbox(b)) == b);
        assert(sbox(inv_sbox(b)) == b);
    } else if b == 56 {
        assert(inv_sbox(sbox(b)) == b);
        assert(sbox(inv_sbox(b)) == b);
    } else if b == 57 {
        assert(inv_sbox(sbox(b)) == b);
        assert(sbox(inv_sbox(b)) == b);
    } else if b == 58 {
        assert(inv_sbox(sbox(b)) == b);
        assert(sbox(inv_sbox(b)) == b);
    } else if b == 59 {
        assert(inv_sbox(sbox(b)) == b);
        assert(sbox(inv_sbox(b)) == b);
    } else if b == 60 {
        assert(inv_sbox(sbox(b)) == b);
        assert(sbox(inv_sbox(b)) == b);
    } else if b == 61 {
        assert(inv_sbox(sbox(b)) == b);
        assert(sbox(inv_sbox(b)) == b);
    } else if b == 62 {
        assert(inv_sbox(sbox(b)) == b);
        assert(sbox(inv_sbox(b)) == b);
    } else if b == 63 {
        assert(inv_sbox(sbox(b)) == b);
        assert(sbox(inv_sbox(b)) == b);
    } else if b == 64 {
        assert(inv_sbox(sbox(b)) == b);
        assert(sbox(inv_sbox(b)) == b);
    } else if b == 65 {
        assert(inv_sbox(sbox(b)) == b);
        assert(sbox(inv_sbox(b)) == b);
    } else if b == 66 {
        assert(inv_sbox(sbox(b)) == b);
        assert(sbox(inv_sbox(b)) == b);
    } else if b == 67 {
        assert(inv_sbox(sbox(b)) == b);
        assert(sbox(inv_sbox(b)) == b);
    } else if b == 68 {
        assert(inv_sbox(sbox(b)) == b);
        assert(sbox(inv_sbox(b)) == b);
    } else if b == 69 {
        assert(inv_sbox(sbox(b)) == b);
        assert(sbox(inv_sbox(b)) == b);
    } else if b == 70 {
        assert(inv_sbox(sbox(b)) == b);
        assert(sbox(inv_sbox(b)) == b);
    } else if b == 71 {
        assert(inv_sbox(sbox(b)) == b);
        assert(sbox(inv_sbox(b)) == b);
    } else if b == 72 {
        assert(inv_sbox(sbox(b)) == b);
        assert(sbox(inv_sbox(b)) == b);
    } else if b == 73 {
        assert(inv_sbox(sbox(b)) == b);
        assert(sbox(inv_sbox(b)) == b);
    } else if b == 74 {
        assert(inv_sbox(sbox(b)) == b);
        assert(sbox(inv_sbox(b)) == b);
    } else if b == 75 {
        assert(inv_sbox(sbox(b)) == b);
        assert(sbox(inv_sbox(b)) == b);
    } else if b == 76 {
        assert(inv_sbox(sbox(b)) == b);
        assert(sbox(inv_sbox(b)) == b);
    } else if b == 77 {
        assert(inv_sbox(sbox(b)) == b);
        assert(sbox(inv_sbox(b)) == b);
    } else if b == 78 {
        assert(inv_sbox(sbox(b)) == b);
        assert(sbox(inv_sbox(b)) == b);
    } else if b == 79 {
        assert(inv_sbox(sbox(b)) == b);
        assert(sbox(inv_sbox(b)) == b);
    } else if b == 80 {
        assert(inv_sbox(sbox(b)) == b);
        assert(sbox(inv_sbox(b)) == b);
    } else if b == 81 {
        assert(inv_sbox(sbox(b)) == b);
        assert(sbox(inv_sbox(b)) == b);
    } else if b == 82 {
        assert(inv_sbox(sbox(b)) == b);
        assert(sbox(inv_sbox(b)) == b);
    } else if b == 83 {
        assert(inv_sbox(sbox(b)) == b);
        assert(sbox(inv_sbox(b)) == b);
    } else if b == 84 {
        assert(inv_sbox(sbox(b)) == b);
        assert(sbox(inv_sbox(b)) == b);
    } else if b == 85 {
        assert(inv_sbox(sbox(b)) == b);
        assert(sbox(inv_sbox(b)) == b);
    } else if b == 86 {
        assert(inv_sbox(sbox(b)) == b);
        assert(sbox(inv_sbox(b)) == b);
    } else if b == 87 {
        assert(inv_sbox(sbox(b)) == b);
        assert(sbox(inv_sbox(b)) == b);
    } else if b == 88 {
        assert(inv_sbox(sbox(b)) == b);
        assert(sbox(inv_sbox(b)) == b);
    } else if b == 89 {
        assert(inv_sbox(sbox(b)) == b);
        assert(sbox(inv_sbox(b)) == b);
    } else if b == 90 {
        assert(inv_sbox(sbox(b)) == b);
        assert(sbox(inv_sbox(b)) == b);
    } else if b == 91 {
        assert(inv_sbox(sbox(b)) == b);
        assert(sbox(inv_sbox(b)) == b);
    } else if b == 92 {
        assert(inv_sbox(sbox(b)) == b);
        assert(sbox(inv_sbox(b)) == b);
    } else if b == 93 {
        assert(inv_sbox(sbox(b)) == b);
        assert(sbox(inv_sbox(b)) == b);
    } else if b == 94 {
        assert(inv_sbox(sbox(b)) == b);
        assert(sbox(inv_sbox(b)) == b);
    } else if b == 95 {
        assert(inv_sbox(sbox(b)) == b);
        assert(sbox(inv_sbox(b)) == b);
    } else if b == 96 {
        assert(inv_sbox(sbox(b)) == b);
        assert(sbox(inv_sbox(b)) == b);
    } else if b == 97 {
        assert(inv_sbox(sbox(b)) == b);
        assert(sbox(inv_sbox(b)) == b);
    } else if b == 98 {
        assert(inv_sbox(sbox(b)) == b);
        assert(sbox(inv_sbox(b)) == b);
    } else if b == 99 {
        assert(inv_sbox(sbox(b)) == b);
        assert(sbox(inv_sbox(b)) == b);
    } else if b == 100 {
        assert(inv_sbox(sbox(b)) == b);
        assert(sbox(inv_sbox(b)) == b);
    } else if b == 101 {
        assert(inv_sbox(sbox(b)) == b);
        assert(sbox(inv_sbox(b)) == b);
    } else if b == 102 {
        assert(inv_sbox(sbox(b)) == b);
        assert(sbox(inv_sbox(b)) == b);
    } else if b == 103 {
        assert(inv_sbox(sbox(b)) == b);
        assert(sbox(inv_sbox(b)) == b);
    } else if b == 104 {
        assert(inv_sbox(sbox(b)) == b);
        assert(sbox(inv_sbox(b)) == b);
    } else if b == 105 {
        assert(inv_sbox(sbox(b)) == b);
        assert(sbox(inv_sbox(b)) == b);
    } else if b == 106 {
        assert(inv_sbox(sbox(b)) == b);
        assert(sbox(inv_sbox(b)) == b);
    } else if b == 107 {
        assert(inv_sbox(sbox(b)) == b);
        assert(sbox(inv_sbox(b)) == b);
    } else if b == 108 {
        assert(inv_sbox(sbox(b)) == b);
        assert(sbox(inv_sbox(b)) == b);
    } else if b == 109 {
        assert(inv_sbox(sbox(b)) == b);
        assert(sbox(inv_sbox(b)) == b);
    } else if b == 110 {
        assert(inv_sbox(sbox(b)) == b);
        assert(sbox(inv_sbox(b)) == b);
    } else if b == 111 {
        assert(inv_sbox(sbox(b)) == b);
        assert(sbox(inv_sbox(b)) == b);
    } else if b == 112 {
        assert(inv_sbox(sbox(b)) == b);
        assert(sbox(inv_sbox(b)) == b);
    } else if b == 113 {
        assert(inv_sbox(sbox(b)) == b);
        assert(sbox(inv_sbox(b)) == b);
    } else if b == 114 {
        assert(inv_sbox(sbox(b)) == b);
        assert(sbox(inv_sbox(b)) == b);
    } else if b == 115 {
        assert(inv_sbox(sbox(b)) == b);
        assert(sbox(inv_sbox(b)) == b);
    } else if b == 116 {
        assert(inv_sbox(sbox(b)) == b);
        assert(sbox(inv_sbox(b)) == b);
    } else if b == 117 {
        assert(inv_sbox(sbox(b)) == b);
        assert(sbox(inv_sbox(b)) == b);
    } else if b == 118 {
        assert(inv_sbox(sbox(b)) == b);
        assert(sbox(inv_sbox(b)) == b);
    } else if b == 119 {
        assert(inv_sbox(sbox(b)) == b);
        assert(sbox(inv_sbox(b)) == b);
    } else if b == 120 {
        assert(inv_sbox(sbox(b)) == b);
        assert(sbox(inv_sbox(b)) == b);
    } else if b == 121 {
        assert(inv_sbox(sbox(b)) == b);
        assert(sbox(inv_sbox(b)) == b);
    } else if b == 122 {
        assert(inv_sbox(sbox(b)) == b);
        assert(sbox(inv_sbox(b)) == b);
    } else if b == 123 {
        assert(inv_sbox(sbox(b)) == b);
        assert(sbox(inv_sbox(b)) == b);
    } else if b == 124 {
        assert(inv_sbox(sbox(b)) == b);
        assert(sbox(inv_sbox(b)) == b);
    } else if b == 125 {
        assert(inv_sbox(sbox(b)) == b);
        assert(sbox(inv_sbox(b)) == b);
    } else if b == 126 {
        assert(inv_sbox(sbox(b)) == b);
        assert(sbox(inv_sbox(b)) == b);
    } else if b == 127 {
        assert(inv_sbox(sbox(b)) == b);
        assert(sbox(inv_sbox(b)) == b);
    } else if b == 128 {
        assert(inv_sbox(sbox(b)) == b);
        assert(sbox(inv_sbox(b)) == b);
    } else if b == 129 {
        assert(inv_sbox(sbox(b)) == b);
        assert(sbox(inv_sbox(b)) == b);
    } else if b == 130 {
        assert(inv_sbox(sbox(b)) == b);
        assert(sbox(inv_sbox(b)) == b);
    } else if b == 131 {
        assert(inv_sbox(sbox(b)) == b);
        assert(sbox(inv_sbox(b)) == b);
    } else if b == 132 {
        assert(inv_sbox(sbox(b)) == b);
        assert(sbox(inv_sbox(b)) == b);
    } else if b == 133 {
        assert(inv_sbox(sbox(b)) == b);
        assert(sbox(inv_sbox(b)) == b);
    } else if b == 134 {
        assert(inv_sbox(sbox(b)) == b);
        assert(sbox(inv_sbox(b)) == b);
    } else if b == 135 {
        assert(inv_sbox(sbox(b)) == b);
        assert(sbox(inv_sbox(b)) == b);
    } else if b == 136 {
        assert(inv_sbox(sbox(b)) == b);
        assert(sbox(inv_sbox(b)) == b);
    } else if b == 137 {
        assert(inv_sbox(sbox(b)) == b);
        assert(sbox(inv_sbox(b)) == b);
    } else if b == 138 {
        assert(inv_sbox(sbox(b)) == b);
        assert(sbox(inv_sbox(b)) == b);
    } else if b == 139 {
        assert(inv_sbox(sbox(b)) == b);
        assert(sbox(inv_sbox(b)) == b);
    } else if b == 140 {
        assert(inv_sbox(sbox(b)) == b);
        assert(sbox(inv_sbox(b)) == b);
    } else if b == 141 {
        assert(inv_sbox(sbox(b)) == b);
        assert(sbox(inv_sbox(b)) == b);
    } else if b == 142 {
        assert(inv_sbox(sbox(b)) == b);
        assert(sbox(inv_sbox(b)) == b);
    } else if b == 143 {
        assert(inv_sbox(sbox(b)) == b);
        assert(sbox(inv_sbox(b)) == b);
    } else if b == 144 {
        assert(inv_sbox(sbox(b)) == b);
        assert(sbox(inv_sbox(b)) == b);
    } else if b == 145 {
        assert(inv_sbox(sbox(b)) == b);
        assert(sbox(inv_sbox(b)) == b);
    } else if b == 146 {
        assert(inv_sbox(sbox(b)) == b);
        assert(sbox(inv_sbox(b)) == b);
    } else if b == 147 {
        assert(inv_sbox(sbox(b)) == b);
        assert(sbox(inv_sbox(b)) == b);
    } else if b == 148 {
        assert(inv_sbox(sbox(b)) == b);
        assert(sbox(inv_sbox(b)) == b);
    } else if b == 149 {
        assert(inv_sbox(sbox(b)) == b);
        assert(sbox(inv_sbox(b)) == b);
    } else if b == 150 {
        assert(inv_sbox(sbox(b)) == b);
        assert(sbox(inv_sbox(b)) == b);
    } else if b == 151 {
        assert(inv_sbox(sbox(b)) == b);
        assert(sbox(inv_sbox(b)) == b);
    } else if b == 152 {
        assert(inv_sbox(sbox(b)) == b);
        assert(sbox(inv_sbox(b)) == b);
    } else if b == 153 {
        assert(inv_sbox(sbox(b)) == b);
        assert(sbox(inv_sbox(b)) == b);
    } else if b == 154 {
        assert(inv_sbox(sbox(b)) == b);
        assert(sbox(inv_sbox(b)) == b);
    } else if b == 155 {
        assert(inv_sbox(sbox(b)) == b);
        assert(sbox(inv_sbox(b)) == b);
    } else if b == 156 {
        assert(inv_sbox(sbox(b)) == b);
        assert(sbox(inv_sbox(b)) == b);
    } else if b == 157 {
        assert(inv_sbox(sbox(b)) == b);
        assert(sbox(inv_sbox(b)) == b);
    } else if b == 158 {
        assert(inv_sbox(sbox(b)) == b);
        assert(sbox(inv_sbox(b)) == b);
    } else if b == 159 {
        assert(inv_sbox(sbox(b)) == b);
        assert(sbox(inv_sbox(b)) == b);
    } else if b == 160 {
        assert(inv_sbox(sbox(b)) == b);
        assert(sbox(inv_sbox(b)) == b);
    } else if b == 161 {
        assert(inv_sbox(sbox(b)) == b);
        assert(sbox(inv_sbox(b)) == b);
    } else if b == 162 {
        assert(inv_sbox(sbox(b)) == b);
        assert(sbox(inv_sbox(b)) == b);
    } else if b == 163 {
        assert(inv_sbox(sbox(b)) == b);
        assert(sbox(inv_sbox(b)) == b);
    } else if b == 164 {
        assert(inv_sbox(sbox(b)) == b);
        assert(sbox(inv_sbox(b)) == b);
    } else if b == 165 {
        assert(inv_sbox(sbox(b)) == b);
        assert(sbox(inv_sbox(b)) == b);
    } else if b == 166 {
        assert(inv_sbox(sbox(b)) == b);
        assert(sbox(inv_sbox(b)) == b);
    } else if b == 167 {
        assert(inv_sbox(sbox(b)) == b);
        assert(sbox(inv_sbox(b)) == b);
    } else if b == 168 {
        assert(inv_sbox(sbox(b)) == b);
        assert(sbox(inv_sbox(b)) == b);
    } else if b == 169 {
        assert(inv_sbox(sbox(b)) == b);
        assert(sbox(inv_sbox(b)) == b);
    } else if b == 170 {
        assert(inv_sbox(sbox(b)) == b);
        assert(sbox(inv_sbox(b)) == b);
    } else if b == 171 {
        assert(inv_sbox(sbox(b)) == b);
        assert(sbox(inv_sbox(b)) == b);
    } else if b == 172 {
        assert(inv_sbox(sbox(b)) == b);
        assert(sbox(inv_sbox(b)) == b);
    } else if b == 173 {
        assert(inv_sbox(sbox(b)) == b);
        assert(sbox(inv_sbox(b)) == b);
    } else if b == 174 {
        assert(inv_sbox(sbox(b)) == b);
        assert(sbox(inv_sbox(b)) == b);
    } else if b == 175 {
        assert(inv_sbox(sbox(b)) == b);
        assert(sbox(inv_sbox(b)) == b);
    } else if b == 176 {
        assert(inv_sbox(sbox(b)) == b);
        assert(sbox(inv_sbox(b)) == b);
    } else if b == 177 {
        assert(inv_sbox(sbox(b)) == b);
        assert(sbox(inv_sbox(b)) == b);
    } else if b == 178 {
        assert(inv_sbox(sbox(b)) == b);
        assert(sbox(inv_sbox(b)) == b);
    } else if b == 179 {
        assert(inv_sbox(sbox(b)) == b);
        assert(sbox(inv_sbox(b)) == b);
    } else if b == 180 {
        assert(inv_sbox(sbox(b)) == b);
        assert(sbox(inv_sbox(b)) == b);
    } else if b == 181 {
        assert(inv_sbox(sbox(b)) == b);
        assert(sbox(inv_sbox(b)) == b);
    } else if b == 182 {
        assert(inv_sbox(sbox(b)) == b);
        assert(sbox(inv_sbox(b)) == b);
    } else if b == 183 {
        assert(inv_sbox(sbox(b)) == b);
        assert(sbox(inv_sbox(b)) == b);
    } else if b == 184 {
        assert(inv_sbox(sbox(b)) == b);
        assert(sbox(inv_sbox(b)) == b);
    } else if b == 185 {
        assert(inv_sbox(sbox(b)) == b);
        assert(sbox(inv_sbox(b)) == b);
    } else if b == 186 {
        assert(inv_sbox(sbox(b)) == b);
        assert(sbox(inv_sbox(b)) == b);
    } else if b == 187 {
        assert(inv_sbox(sbox(b)) == b);
        assert(sbox(inv_sbox(b)) == b);
    } else if b == 188 {
        assert(inv_sbox(sbox(b)) == b);
        assert(sbox(inv_sbox(b)) == b);
    } else if b == 189 {
        assert(inv_sbox(sbox(b)) == b);
        assert(sbox(inv_sbox(b)) == b);
    } else if b == 190 {
        assert(inv_sbox(sbox(b)) == b);
        assert(sbox(inv_sbox(b)) == b);
    } else if b == 191 {
        assert(inv_sbox(sbox(b)) == b);
        assert(sbox(inv_sbox(b)) == b);
    } else if b == 192 {
        assert(inv_sbox(sbox(b)) == b);
        assert(sbox(inv_sbox(b)) == b);
    } else if b == 193 {
        assert(inv_sbox(sbox(b)) == b);
        assert(sbox(inv_sbox(b)) == b);
    } else if b == 194 {
        assert(inv_sbox(sbox(b)) == b);
        assert(sbox(inv_sbox(b)) == b);
    } else if b == 195 {
        assert(inv_sbox(sbox(b)) == b);
        assert(sbox(inv_sbox(b)) == b);
    } else if b == 196 {
        assert(inv_sbox(sbox(b)) == b);
        assert(sbox(inv_sbox(b)) == b);
    } else if b == 197 {
        assert(inv_sbox(sbox(b)) == b);
        assert(sbox(inv_sbox(b)) == b);
    } else if b == 198 {
        assert(inv_sbox(sbox(b)) == b);
        assert(sbox(inv_sbox(b)) == b);
    } else if b == 199 {
        assert(inv_sbox(sbox(b)) == b);
        assert(sbox(inv_sbox(b)) == b);
    } else if b == 200 {
        assert(inv_sbox(sbox(b)) == b);
        assert(sbox(inv_sbox(b)) == b);
    } else if b == 201 {
        assert(inv_sbox(sbox(b)) == b);
        assert(sbox(inv_sbox(b)) == b);
    } else if b == 202 {
        assert(inv_sbox(sbox(b)) == b);
        assert(sbox(inv_sbox(b)) == b);
    } else if b == 203 {
        assert(inv_sbox(sbox(b)) == b);
        assert(sbox(inv_sbox(b)) == b);
    } else if b == 204 {
        assert(inv_sbox(sbox(b)) == b);
        assert(sbox(inv_sbox(b)) == b);
    } else if b == 205 {
        assert(inv_sbox(sbox(b)) == b);
        assert(sbox(inv_sbox(b)) == b);
    } else if b == 206 {
        assert(inv_sbox(sbox(b)) == b);
        assert(sbox(inv_sbox(b)) == b);
    } else if b == 207 {
        assert(inv_sbox(sbox(b)) == b);
        assert(sbox(inv_sbox(b)) == b);
    } else if b == 208 {
        assert(inv_sbox(sbox(b)) == b);
        assert(sbox(inv_sbox(b)) == b);
    } else if b == 209 {
        assert(inv_sbox(sbox(b)) == b);
        assert(sbox(inv_sbox(b)) == b);
    } else if b == 210 {
        assert(inv_sbox(sbox(b)) == b);
        assert(sbox(inv_sbox(b)) == b);
    } else if b == 211 {
        assert(inv_sbox(sbox(b)) == b);
        assert(sbox(inv_sbox(b)) == b);
    } else if b == 212 {
        assert(inv_sbox(sbox(b)) == b);
        assert(sbox(inv_sbox(b)) == b);
    } else if b == 213 {
        assert(inv_sbox(sbox(b)) == b);
        assert(sbox(inv_sbox(b)) == b);
    } else if b == 214 {
        assert(inv_sbox(sbox(b)) == b);
        assert(sbox(inv_sbox(b)) == b);
    } else if b == 215 {
        assert(inv_sbox(sbox(b)) == b);
        assert(sbox(inv_sbox(b)) == b);
    } else if b == 216 {
        assert(inv_sbox(sbox(b)) == b);
        assert(sbox(inv_sbox(b)) == b);
    } else if b == 217 {
        assert(inv_sbox(sbox(b)) == b);
        assert(sbox(inv_sbox(b)) == b);
    } else if b == 218 {
        assert(inv_sbox(sbox(b)) == b);
        assert(sbox(inv_sbox(b)) == b);
    } else if b == 219 {
        assert(inv_sbox(sbox(b)) == b);
        assert(sbox(inv_sbox(b)) == b);
    } else if b == 220 {
        assert(inv_sbox(sbox(b)) == b);
        assert(sbox(inv_sbox(b)) == b);
    } else if b == 221 {
        assert(inv_sbox(sbox(b)) == b);
        assert(sbox(inv_sbox(b)) == b);
    } else if b == 222 {
        assert(inv_sbox(sbox(b)) == b);
        assert(sbox(inv_sbox(b)) == b);
    } else if b == 223 {
        assert(inv_sbox(sbox(b)) == b);
        assert(sbox(inv_sbox(b)) == b);
    } else if b == 224 {
        assert(inv_sbox(sbox(b)) == b);
        assert(sbox(inv_sbox(b)) == b);
    } else if b == 225 {
        assert(inv_sbox(sbox(b)) == b);
        assert(sbox(inv_sbox(b)) == b);
    } else if b == 226 {
        assert(inv_sbox(sbox(b)) == b);
        assert(sbox(inv_sbox(b)) == b);
    } else if b == 227 {
        assert(inv_sbox(sbox(b)) == b);
        assert(sbox(inv_sbox(b)) == b);
    } else if b == 228 {
        assert(inv_sbox(sbox(b)) == b);
        assert(sbox(inv_sbox(b)) == b);
    } else if b == 229 {
        assert(inv_sbox(sbox(b)) == b);
        assert(sbox(inv_sbox(b)) == b);
    } else if b == 230 {
        assert(inv_sbox(sbox(b)) == b);
        assert(sbox(inv_sbox(b)) == b);
    } else if b == 231 {
        assert(inv_sbox(sbox(b)) == b);
        assert(sbox(inv_sbox(b)) == b);
    } else if b == 232 {
        assert(inv_sbox(sbox(b)) == b);
        assert(sbox(inv_sbox(b)) == b);
    } else if b == 233 {
        assert(inv_sbox(sbox(b)) == b);
        assert(sbox(inv_sbox(b)) == b);
    } else if b == 234 {
        assert(inv_sbox(sbox(b)) == b);
        assert(sbox(inv_sbox(b)) == b);
    } else if b == 235 {
        assert(inv_sbox(sbox(b)) == b);
        assert(sbox(inv_sbox(b)) == b);
    } else if b == 236 {
        assert(inv_sbox(sbox(b)) == b);
        assert(sbox(inv_sbox(b)) == b);
    } else if b == 237 {
        assert(inv_sbox(sbox(b)) == b);
        assert(sbox(inv_sbox(b)) == b);
    } else if b == 238 {
        assert(inv_sbox(sbox(b)) == b);
        assert(sbox(inv_sbox(b)) == b);
    } else if b == 239 {
        assert(inv_sbox(sbox(b)) == b);
        assert(sbox(inv_sbox(b)) == b);
    } else if b == 240 {
        assert(inv_sbox(sbox(b)) == b);
        assert(sbox(inv_sbox(b)) == b);
    } else if b == 241 {
        assert(inv_sbox(sbox(b)) == b);
        assert(sbox(inv_sbox(b)) == b);
    } else if b == 242 {
        assert(inv_sbox(sbox(b)) == b);
        assert(sbox(inv_sbox(b)) == b);
    } else if b == 243 {
        assert(inv_sbox(sbox(b)) == b);
        assert(sbox(inv_sbox(b)) == b);
    } else if b == 244 {
        assert(inv_sbox(sbox(b)) == b);
        assert(sbox(inv_sbox(b)) == b);
    } else if b == 245 {
        assert(inv_sbox(sbox(b)) == b);
        assert(sbox(inv_sbox(b)) == b);
    } else if b == 246 {
        assert(inv_sbox(sbox(b)) == b);
        assert(sbox(inv_sbox(b)) == b);
    } else if b == 247 {
        assert(inv_sbox(sbox(b)) == b);
        assert(sbox(inv_sbox(b)) == b);
    } else if b == 248 {
        assert(inv_sbox(sbox(b)) == b);
        assert(sbox(inv_sbox(b)) == b);
    } else if b == 249 {
        assert(inv_sbox(sbox(b)) == b);
        assert(sbox(inv_sbox(b)) == b);
    } else if b == 250 {
        assert(inv_sbox(sbox(b)) == b);
        assert(sbox(inv_sbox(b)) == b);
    } else if b == 251 {
        assert(inv_sbox(sbox(b)) == b);
        assert(sbox(inv_sbox(b)) == b);
    } else if b == 252 {
        assert(inv_sbox(sbox(b)) == b);
        assert(sbox(inv_sbox(b)) == b);
    } else if b == 253 {
        assert(inv_sbox(sbox(b)) == b);
        assert(sbox(inv_sbox(b)) == b);
    } else if b == 254 {
        assert(inv_sbox(sbox(b)) == b);
        assert(sbox(inv_sbox(b)) == b);
    } else if b == 255 {
        assert(inv_sbox(sbox(b)) == b);
        assert(sbox(inv_sbox(b)) == b);
    } else {
        assert(b == 255);
        assert(inv_sbox(sbox(b)) == b);
        assert(sbox(inv_sbox(b)) == b);
    }
}

/// The two substitution boxes invert one another.
proof fn lemma_sbox_bijection()
    ensures
        forall|b: u8| #[trigger] inv_sbox(sbox(b)) == b,
        forall|b: u8| #[trigger] sbox(inv_sbox(b)) == b,
{
    assert forall|b: u8| #[trigger] inv_sbox(sbox(b)) == b by {
        lemma_sbox_case(b);
    }
    assert forall|b: u8| #[trigger] sbox(inv_sbox(b)) == b by {
        lemma_sbox_case(b);
    }
}


// ===== state transforms on 16-byte blocks, as sequences =====

/// Adds (xors) a round key into the state.
pub open spec fn add_rk(s: Seq<u8>, k: Seq<u8>) -> Seq<u8> {
    Seq::new(16, |i: int| s[i] ^ k[i])
}

/// Applies the forward substitution box to every byte.
pub open spec fn sub_b(s: Seq<u8>) -> Seq<u8> {
    Seq::new(16, |i: int| sbox(s[i]))
}

/// Applies the inverse substitution box to every byte.
pub open spec fn inv_sub_b(s: Seq<u8>) -> Seq<u8> {
    Seq::new(16, |i: int| inv_sbox(s[i]))
}

/// Rotates row r of the column-major state left by r bytes.
pub open spec fn shift_r(s: Seq<u8>) -> Seq<u8> {
    seq![
        s[0], s[5], s[10], s[15],
        s[4], s[9], s[14], s[3],
        s[8], s[13], s[2], s[7],
        s[12], s[1], s[6], s[11],
    ]
}

/// Rotates row r of the column-major state right by r bytes.
pub open spec fn inv_shift_r(s: Seq<u8>) -> Seq<u8> {
    seq![
        s[0], s[13], s[10], s[7],
        s[4], s[1], s[14], s[11],
        s[8], s[5], s[2], s[15],
        s[12], s[9], s[6], s[3],
    ]
}

/// First byte of one forward-mixed column.
pub open spec fn mc0(a: u8, b: u8, c: u8, d: u8) -> u8 {
    xt(a) ^ (xt(b) ^ b) ^ c ^ d
}

/// Second byte of one forward-mixed column.
pub open spec fn mc1(a: u8, b: u8, c: u8, d: u8) -> u8 {
    a ^ xt(b) ^ (xt(c) ^ c) ^ d
}

/// Third byte of one forward-mixed column.
pub open spec fn mc2(a: u8, b: u8, c: u8, d: u8) -> u8 {
    a ^ b ^ xt(c) ^ (xt(d) ^ d)
}

/// Fourth byte of one forward-mixed column.
pub open spec fn mc3(a: u8, b: u8, c: u8, d: u8) -> u8 {
    (xt(a) ^ a) ^ b ^ c ^ xt(d)
}

/// First byte of one inverse-mixed column.
pub open spec fn im0(a: u8, b: u8, c: u8, d: u8) -> u8 {
    g14(a) ^ g11(b) ^ g13(c) ^ g9(d)
}

/// Second byte of one inverse-mixed column.
pub open spec fn im1(a: u8, b: u8, c: u8, d: u8) -> u8 {
    g9(a) ^ g14(b) ^ g11(c) ^ g13(d)
}

/// Third byte of one inverse-mixed column.
pub open spec fn im2(a: u8, b: u8, c: u8, d: u8) -> u8 {
    g13(a) ^ g9(b) ^ g14(c) ^ g11(d)
}

/// Fourth byte of one inverse-mixed column.
pub open spec fn im3(a: u8, b: u8, c: u8, d: u8) -> u8 {
    g11(a) ^ g13(b) ^ g9(c) ^ g14(d)
}

/// Forward column mixing of the whole state.
pub open spec fn mix_c(s: Seq<u8>) -> Seq<u8> {
    seq![
        mc0(s[0], s[1], s[2], s[3]), mc1(s[0], s[1], s[2], s[3]),
        mc2(s[0], s[1], s[2], s[3]), mc3(s[0], s[1], s[2], s[3]),
        mc0(s[4], s[5], s[6], s[7]), mc1(s[4], s[5], s[6], s[7]),
        mc2(s[4], s[5], s[6], s[7]), mc3(s[4], s[5], s[6], s[7]),
        mc0(s[8], s[9], s[10], s[11]), mc1(s[8], s[9], s[10], s[11]),
        mc2(s[8], s[9], s[10], s[11]), mc3(s[8], s[9], s[10], s[11]),
        mc0(s[12], s[13], s[14], s[15]), mc1(s[12], s[13], s[14], s[15]),
        mc2(s[12], s[13], s[14], s[15]), mc3(s[12], s[13], s[14], s[15]),
    ]
}

/// Inverse column mixing of the whole state.
pub open spec fn inv_mix_c(s: Seq<u8>) -> Seq<u8> {
    seq![
        im0(s[0], s[1], s[2], s[3]), im1(s[0], s[1], s[2], s[3]),
        im2(s[0], s[1], s[2], s[3]), im3(s[0], s[1], s[2], s[3]),
        im0(s[4], s[5], s[6], s[7]), im1(s[4], s[5], s[6], s[7]),
        im2(s[4], s[5], s[6], s[7]), im3(s[4], s[5], s[6], s[7]),
        im0(s[8], s[9], s[10], s[11]), im1(s[8], s[9], s[10], s[11]),
        im2(s[8], s[9], s[10], s[11]), im3(s[8], s[9], s[10], s[11]),
        im0(s[12], s[13], s[14], s[15]), im1(s[12], s[13], s[14], s[15]),
        im2(s[12], s[13], s[14], s[15]), im3(s[12], s[13], s[14], s[15]),
    ]
}

// ===== round structure =====

/// Round key r taken out of the expanded schedule.
pub open spec fn rk(w: Seq<u8>, r: int) -> Seq<u8> {
    w.subrange(16 * r, 16 * r + 16)
}

/// One middle decryption round.
pub open spec fn inv_round(s: Seq<u8>, k: Seq<u8>) -> Seq<u8> {
    inv_mix_c(add_rk(inv_sub_b(inv_shift_r(s)), k))
}

/// One middle encryption round.
pub open spec fn fwd_round(s: Seq<u8>, k: Seq<u8>) -> Seq<u8> {
    add_rk(mix_c(shift_r(sub_b(s))), k)
}

/// State after k middle decryption rounds; the k-th uses round key nr - k.
pub open spec fn inv_rounds(w: Seq<u8>, s: Seq<u8>, nr: int, k: nat) -> Seq<u8>
    decreases k,
{
    if k == 0 {
        s
    } else {
        inv_round(inv_rounds(w, s, nr, (k - 1) as nat), rk(w, nr - k))
    }
}

/// State after k middle encryption rounds; the k-th uses round key k.
pub open spec fn fwd_rounds(w: Seq<u8>, s: Seq<u8>, k: nat) -> Seq<u8>
    decreases k,
{
    if k == 0 {
        s
    } else {
        fwd_round(fwd_rounds(w, s, (k - 1) as nat), rk(w, k as int))
    }
}

/// Decryption of one 16-byte block under an expanded schedule with nr rounds.
#[verifier::opaque]
pub open spec fn spec_decrypt_block(w: Seq<u8>, nr: int, ct: Seq<u8>) -> Seq<u8> {
    add_rk(
        inv_sub_b(inv_shift_r(inv_rounds(w, add_rk(ct, rk(w, nr)), nr, (nr - 1) as nat))),
        rk(w, 0),
    )
}

/// Encryption of one 16-byte block under an expanded schedule with nr rounds.
#[verifier::opaque]
pub open spec fn spec_encrypt_block(w: Seq<u8>, nr: int, pt: Seq<u8>) -> Seq<u8> {
    add_rk(
        shift_r(sub_b(fwd_rounds(w, add_rk(pt, rk(w, 0)), (nr - 1) as nat))),
        rk(w, nr),
    )
}

/// Whole-buffer decryption, block by block, each block independent.
pub open spec fn spec_decrypt_ecb(w: Seq<u8>, nr: int, data: Seq<u8>) -> Seq<u8>
    decreases data.len(),
{
    if data.len() < 16 {
        Seq::empty()
    } else {
        spec_decrypt_block(w, nr, data.subrange(0, 16))
            + spec_decrypt_ecb(w, nr, data.subrange(16, data.len() as int))
    }
}

/// Whole-buffer encryption, block by block, each block independent.
pub open spec fn spec_encrypt_ecb(w: Seq<u8>, nr: int, data: Seq<u8>) -> Seq<u8>
    decreases data.len(),
{
    if data.len() < 16 {
        Seq::empty()
    } else {
        spec_encrypt_block(w, nr, data.subrange(0, 16))
            + spec_encrypt_ecb(w, nr, data.subrange(16, data.len() as int))
    }
}

// ===== key schedule =====

/// A key is 128, 192 or 256 bits long.
pub open spec fn valid_key_len(n: nat) -> bool {
    n == 16 || n == 24 || n == 32
}

/// Number of 32-bit words in the key.
pub open spec fn nk_of(keylen: int) -> int {
    keylen / 4
}

/// Number of rounds selected by the key length.
pub open spec fn nr_of(keylen: int) -> int {
    keylen / 4 + 6
}

/// Round constant for word group j.
pub open spec fn rcon(j: int) -> u8
    decreases j,
{
    if j <= 1 {
        1
    } else {
        xt(rcon(j - 1))
    }
}

/// Bytewise xor of two 4-byte words.
pub open spec fn xor4(a: Seq<u8>, b: Seq<u8>) -> Seq<u8> {
    seq![a[0] ^ b[0], a[1] ^ b[1], a[2] ^ b[2], a[3] ^ b[3]]
}

/// Rotates a 4-byte word left by one byte.
pub open spec fn rot_word(wd: Seq<u8>) -> Seq<u8> {
    seq![wd[1], wd[2], wd[3], wd[0]]
}

/// Applies the forward substitution box to a 4-byte word.
pub open spec fn sub_word(wd: Seq<u8>) -> Seq<u8> {
    seq![sbox(wd[0]), sbox(wd[1]), sbox(wd[2]), sbox(wd[3])]
}

/// Word i of the expanded key schedule.
pub open spec fn ks_word(key: Seq<u8>, i: int) -> Seq<u8>
    decreases i,
{
    let nk = nk_of(key.len() as int);
    if nk <= 0 {
        Seq::empty()
    } else if i < nk {
        key.subrange(4 * i, 4 * i + 4)
    } else {
        let prev = ks_word(key, i - 1);
        let t = if i % nk == 0 {
            let sw = sub_word(rot_word(prev));
            seq![sw[0] ^ rcon(i / nk), sw[1], sw[2], sw[3]]
        } else if nk > 6 && i % nk == 4 {
            sub_word(prev)
        } else {
            prev
        };
        xor4(ks_word(key, i - nk), t)
    }
}

/// The full expanded key schedule as one byte sequence.
pub open spec fn spec_expand_key(key: Seq<u8>) -> Seq<u8> {
    Seq::new((16 * (nr_of(key.len() as int) + 1)) as nat, |i: int| ks_word(key, i / 4)[i % 4])
}

// ===== executable cipher =====

/// Multiplication by x in GF(2^8).
fn xt_x(b: u8) -> (r: u8)
    ensures
        r == xt(b),
{
    (b << 1u32) ^ (if b >= 0x80 { 0x1b } else { 0 })
}

/// The block cipher with its precomputed round-key schedule, held for the
/// key's lifetime; read-only after construction.
pub struct Rijndael {
    pub rounds: usize,
    pub schedule: Vec<u8>,
}

impl Rijndael {
    /// The schedule has the right size for the round count.
    pub open spec fn wf(&self) -> bool {
        10 <= self.rounds <= 14 && self.schedule@.len() == 16 * (self.rounds + 1)
    }

    /// The cipher was built from this key.
    pub open spec fn is_for_key(&self, key: Seq<u8>) -> bool {
        valid_key_len(key.len()) && self.rounds == nr_of(key.len() as int)
            && self.schedule@ == spec_expand_key(key)
    }

    /// Derives the round-key schedule from a 128/192/256-bit key; any other
    /// key length is a corrupt-length condition.
    pub fn new(key: &[u8]) -> (r: Result<Rijndael, ParserError>)
        ensures
            r is Ok <==> valid_key_len(key@.len()),
            r is Ok ==> r->Ok_0.wf() && r->Ok_0.is_for_key(key@),
            r is Err ==> r->Err_0 is Crypto,
    {
        let kl = key.len();
        if !(kl == 16 || kl == 24 || kl == 32) {
            return Err(ParserError::Crypto);
        }
        let nk = kl / 4;
        let rounds = nk + 6;
        let nw = 4 * (rounds + 1);
        let mut w: Vec<u8> = Vec::new();
        let mut i: usize = 0;
        while i < kl
            invariant
                i <= kl,
                kl == key@.len(),
                w@ == key@.subrange(0, i as int),
            decreases kl - i,
        {
            w.push(key[i]);
            proof {
                assert(w@ =~= key@.subrange(0, i + 1 as int));
            }
            i = i + 1;
        }
        proof {
            assert(w@ =~= key@);
            assert forall|j: int| 0 <= j < nk implies #[trigger] w@.subrange(4 * j, 4 * j + 4)
                == ks_word(key@, j) by {
                assert(w@.subrange(4 * j, 4 * j + 4) =~= key@.subrange(4 * j, 4 * j + 4));
            }
        }
        let mut wi: usize = nk;
        while wi < nw
            invariant
                nk <= wi <= nw,
                nk == key@.len() / 4,
                valid_key_len(key@.len()),
                rounds == nk + 6,
                nw == 4 * (rounds + 1),
                w@.len() == 4 * wi,
                forall|j: int| 0 <= j < wi ==> #[trigger] w@.subrange(4 * j, 4 * j + 4)
                    == ks_word(key@, j),
            decreases nw - wi,
        {
            let p0 = w[4 * wi - 4];
            let p1 = w[4 * wi - 3];
            let p2 = w[4 * wi - 2];
            let p3 = w[4 * wi - 1];
            proof {
                let pw = ks_word(key@, wi as int - 1);
                assert(w@.subrange(4 * (wi - 1) as int, 4 * (wi - 1) as int + 4) == pw);
                assert(p0 == pw[0] && p1 == pw[1] && p2 == pw[2] && p3 == pw[3]);
            }
            let ghost pw = ks_word(key@, wi as int - 1);
            let ghost tw = ks_word_t(key@, wi as int);
            let t0: u8;
            let t1: u8;
            let t2: u8;
            let t3: u8;
            if wi % nk == 0 {
                let j = wi / nk;
                proof {
                    assert(1 <= wi / nk <= 10) by (nonlinear_arith)
                        requires
                            (nk == 4 || nk == 6 || nk == 8) && nk <= wi && wi < 4 * (nk + 7),
                    ;
                }
                t0 = sbox_x(p1) ^ rcon_x(j);
                t1 = sbox_x(p2);
                t2 = sbox_x(p3);
                t3 = sbox_x(p0);
                proof {
                    assert(tw =~= seq![t0, t1, t2, t3]);
                }
            } else if nk > 6 && wi % nk == 4 {
                t0 = sbox_x(p0);
                t1 = sbox_x(p1);
                t2 = sbox_x(p2);
                t3 = sbox_x(p3);
                proof {
                    assert(tw =~= seq![t0, t1, t2, t3]);
                }
            } else {
                t0 = p0;
                t1 = p1;
                t2 = p2;
                t3 = p3;
                proof {
                    assert(pw.len() == 4);
                    assert(tw =~= seq![t0, t1, t2, t3]);
                }
            }
            let b0 = w[4 * (wi - nk)] ^ t0;
            let b1 = w[4 * (wi - nk) + 1] ^ t1;
            let b2 = w[4 * (wi - nk) + 2] ^ t2;
            let b3 = w[4 * (wi - nk) + 3] ^ t3;
            proof {
                let bw = ks_word(key@, wi as int - nk as int);
                assert(w@.subrange(4 * (wi - nk) as int, 4 * (wi - nk) as int + 4) == bw);
                assert(b0 == bw[0] ^ t0 && b1 == bw[1] ^ t1 && b2 == bw[2] ^ t2
                    && b3 == bw[3] ^ t3);
            }
            let ghost w0 = w@;
            w.push(b0);
            w.push(b1);
            w.push(b2);
            w.push(b3);
            proof {
                assert(w@.subrange(4 * wi as int, 4 * wi as int + 4) =~= seq![b0, b1, b2, b3]);
                assert(seq![b0, b1, b2, b3] =~= xor4(ks_word(key@, wi as int - nk as int), tw));
                assert(xor4(ks_word(key@, wi as int - nk as int), tw) == ks_word(key@, wi as int));
                assert forall|j: int| 0 <= j < wi + 1 implies #[trigger] w@.subrange(
                    4 * j,
                    4 * j + 4,
                ) == ks_word(key@, j) by {
                    if j < wi {
                        assert(w@.subrange(4 * j, 4 * j + 4) =~= w0.subrange(4 * j, 4 * j + 4));
                    }
                }
            }
            wi = wi + 1;
        }
        let r = Rijndael { rounds, schedule: w };
        proof {
            assert(r.schedule@ =~= spec_expand_key(key@)) by {
                assert forall|i2: int| 0 <= i2 < r.schedule@.len() implies r.schedule@[i2]
                    == ks_word(key@, i2 / 4)[i2 % 4] by {
                    let j = i2 / 4;
                    assert(r.schedule@.subrange(4 * j, 4 * j + 4) == ks_word(key@, j));
                    assert(r.schedule@[i2] == r.schedule@.subrange(4 * j, 4 * j + 4)[i2 % 4]);
                }
            }
        }
        Ok(r)
    }
}

/// The transformed previous word folded into schedule word i.
pub open spec fn ks_word_t(key: Seq<u8>, i: int) -> Seq<u8> {
    let nk = nk_of(key.len() as int);
    let prev = ks_word(key, i - 1);
    if i % nk == 0 {
        let sw = sub_word(rot_word(prev));
        seq![sw[0] ^ rcon(i / nk), sw[1], sw[2], sw[3]]
    } else if nk > 6 && i % nk == 4 {
        sub_word(prev)
    } else {
        prev
    }
}

/// Round constant lookup.
fn rcon_x(j: usize) -> (r: u8)
    requires
        1 <= j <= 10,
    ensures
        r == rcon(j as int),
{
    proof {
        assert(rcon(1) == 1);
        assert(xt(0x01) == 0x02 && xt(0x02) == 0x04 && xt(0x04) == 0x08 && xt(0x08) == 0x10
            && xt(0x10) == 0x20 && xt(0x20) == 0x40 && xt(0x40) == 0x80 && xt(0x80) == 0x1b
            && xt(0x1b) == 0x36) by (bit_vector);
        assert(rcon(2) == 0x02);
        assert(rcon(3) == 0x04);
        assert(rcon(4) == 0x08);
        assert(rcon(5) == 0x10);
        assert(rcon(6) == 0x20);
        assert(rcon(7) == 0x40);
        assert(rcon(8) == 0x80);
        assert(rcon(9) == 0x1b);
        assert(rcon(10) == 0x36);
    }
    match j {
        1 => 0x01,
        2 => 0x02,
        3 => 0x04,
        4 => 0x08,
        5 => 0x10,
        6 => 0x20,
        7 => 0x40,
        8 => 0x80,
        9 => 0x1b,
        _ => 0x36,
    }
}


// ===== executable state transforms =====

/// Xors round key r of the schedule into the state.
fn ark_x(s: &Vec<u8>, w: &Vec<u8>, r: usize) -> (t: Vec<u8>)
    requires
        s@.len() == 16,
        w@.len() >= 16 * r + 16,
    ensures
        t@ == add_rk(s@, rk(w@, r as int)),
{
    let wl = w.len();
    let mut t: Vec<u8> = Vec::new();
    let mut i: usize = 0;
    while i < 16
        invariant
            i <= 16,
            t@.len() == i,
            s@.len() == 16,
            wl == w@.len(),
            16 * r + 16 <= wl,
            forall|j: int| 0 <= j < i ==> t@[j] == s@[j] ^ w@[16 * r + j],
        decreases 16 - i,
    {
        t.push(s[i] ^ w[16 * r + i]);
        i = i + 1;
    }
    proof {
        assert(t@ =~= add_rk(s@, rk(w@, r as int)));
    }
    t
}

/// Applies the forward substitution box to the state.
fn sub_x(s: &Vec<u8>) -> (t: Vec<u8>)
    requires
        s@.len() == 16,
    ensures
        t@ == sub_b(s@),
{
    let mut t: Vec<u8> = Vec::new();
    let mut i: usize = 0;
    while i < 16
        invariant
            i <= 16,
            t@.len() == i,
            s@.len() == 16,
            forall|j: int| 0 <= j < i ==> t@[j] == sbox(s@[j]),
        decreases 16 - i,
    {
        t.push(sbox_x(s[i]));
        i = i + 1;
    }
    proof {
        assert(t@ =~= sub_b(s@));
    }
    t
}

/// Applies the inverse substitution box to the state.
fn inv_sub_x(s: &Vec<u8>) -> (t: Vec<u8>)
    requires
        s@.len() == 16,
    ensures
        t@ == inv_sub_b(s@),
{
    let mut t: Vec<u8> = Vec::new();
    let mut i: usize = 0;
    while i < 16
        invariant
            i <= 16,
            t@.len() == i,
            s@.len() == 16,
            forall|j: int| 0 <= j < i ==> t@[j] == inv_sbox(s@[j]),
        decreases 16 - i,
    {
        t.push(inv_sbox_x(s[i]));
        i = i + 1;
    }
    proof {
        assert(t@ =~= inv_sub_b(s@));
    }
    t
}

/// Forward row shift of the state.
fn shift_x(s: &Vec<u8>) -> (t: Vec<u8>)
    requires
        s@.len() == 16,
    ensures
        t@ == shift_r(s@),
{
    let mut t: Vec<u8> = Vec::new();
    t.push(s[0]); t.push(s[5]); t.push(s[10]); t.push(s[15]);
    t.push(s[4]); t.push(s[9]); t.push(s[14]); t.push(s[3]);
    t.push(s[8]); t.push(s[13]); t.push(s[2]); t.push(s[7]);
    t.push(s[12]); t.push(s[1]); t.push(s[6]); t.push(s[11]);
    proof {
        assert(t@ =~= shift_r(s@));
    }
    t
}

/// Inverse row shift of the state.
fn inv_shift_x(s: &Vec<u8>) -> (t: Vec<u8>)
    requires
        s@.len() == 16,
    ensures
        t@ == inv_shift_r(s@),
{
    let mut t: Vec<u8> = Vec::new();
    t.push(s[0]); t.push(s[13]); t.push(s[10]); t.push(s[7]);
    t.push(s[4]); t.push(s[1]); t.push(s[14]); t.push(s[11]);
    t.push(s[8]); t.push(s[5]); t.push(s[2]); t.push(s[15]);
    t.push(s[12]); t.push(s[9]); t.push(s[6]); t.push(s[3]);
    proof {
        assert(t@ =~= inv_shift_r(s@));
    }
    t
}

/// Forward column mixing of the state.
#[verifier::spinoff_prover]
#[verifier::rlimit(100)]
fn mix_x(s: &Vec<u8>) -> (t: Vec<u8>)
    requires
        s@.len() == 16,
    ensures
        t@ == mix_c(s@),
{
    let mut t: Vec<u8> = Vec::new();
    {
        let a = s[0];
        let b = s[1];
        let e = s[2];
        let d = s[3];
        let xa = xt_x(a);
        let xb = xt_x(b);
        let xe = xt_x(e);
        let xd = xt_x(d);
        t.push(xa ^ (xb ^ b) ^ e ^ d);
        t.push(a ^ xb ^ (xe ^ e) ^ d);
        t.push(a ^ b ^ xe ^ (xd ^ d));
        t.push((xa ^ a) ^ b ^ e ^ xd);
    }
    {
        let a = s[4];
        let b = s[5];
        let e = s[6];
        let d = s[7];
        let xa = xt_x(a);
        let xb = xt_x(b);
        let xe = xt_x(e);
        let xd = xt_x(d);
        t.push(xa ^ (xb ^ b) ^ e ^ d);
        t.push(a ^ xb ^ (xe ^ e) ^ d);
        t.push(a ^ b ^ xe ^ (xd ^ d));
        t.push((xa ^ a) ^ b ^ e ^ xd);
    }
    {
        let a = s[8];
        let b = s[9];
        let e = s[10];
        let d = s[11];
        let xa = xt_x(a);
        let xb = xt_x(b);
        let xe = xt_x(e);
        let xd = xt_x(d);
        t.push(xa ^ (xb ^ b) ^ e ^ d);
        t.push(a ^ xb ^ (xe ^ e) ^ d);
        t.push(a ^ b ^ xe ^ (xd ^ d));
        t.push((xa ^ a) ^ b ^ e ^ xd);
    }
    {
        let a = s[12];
        let b = s[13];
        let e = s[14];
        let d = s[15];
        let xa = xt_x(a);
        let xb = xt_x(b);
        let xe = xt_x(e);
        let xd = xt_x(d);
        t.push(xa ^ (xb ^ b) ^ e ^ d);
        t.push(a ^ xb ^ (xe ^ e) ^ d);
        t.push(a ^ b ^ xe ^ (xd ^ d));
        t.push((xa ^ a) ^ b ^ e ^ xd);
    }
    proof {
        assert(t@ =~= mix_c(s@));
    }
    t
}

/// Inverse column mixing of the state.
#[verifier::spinoff_prover]
#[verifier::rlimit(100)]
fn inv_mix_x(s: &Vec<u8>) -> (t: Vec<u8>)
    requires
        s@.len() == 16,
    ensures
        t@ == inv_mix_c(s@),
{
    let mut t: Vec<u8> = Vec::new();
    {
        let a = s[0];
        let b = s[1];
        let e = s[2];
        let d = s[3];
        let a1 = xt_x(a);
        let a2 = xt_x(a1);
        let a3 = xt_x(a2);
        let b1 = xt_x(b);
        let b2 = xt_x(b1);
        let b3 = xt_x(b2);
        let e1 = xt_x(e);
        let e2 = xt_x(e1);
        let e3 = xt_x(e2);
        let d1 = xt_x(d);
        let d2 = xt_x(d1);
        let d3 = xt_x(d2);
        t.push(((a3 ^ a2) ^ a1) ^ ((b3 ^ b1) ^ b) ^ ((e3 ^ e2) ^ e) ^ (d3 ^ d));
        t.push((a3 ^ a) ^ ((b3 ^ b2) ^ b1) ^ ((e3 ^ e1) ^ e) ^ ((d3 ^ d2) ^ d));
        t.push(((a3 ^ a2) ^ a) ^ (b3 ^ b) ^ ((e3 ^ e2) ^ e1) ^ ((d3 ^ d1) ^ d));
        t.push(((a3 ^ a1) ^ a) ^ ((b3 ^ b2) ^ b) ^ (e3 ^ e) ^ ((d3 ^ d2) ^ d1));
    }
    {
        let a = s[4];
        let b = s[5];
        let e = s[6];
        let d = s[7];
        let a1 = xt_x(a);
        let a2 = xt_x(a1);
        let a3 = xt_x(a2);
        let b1 = xt_x(b);
        let b2 = xt_x(b1);
        let b3 = xt_x(b2);
        let e1 = xt_x(e);
        let e2 = xt_x(e1);
        let e3 = xt_x(e2);
        let d1 = xt_x(d);
        let d2 = xt_x(d1);
        let d3 = xt_x(d2);
        t.push(((a3 ^ a2) ^ a1) ^ ((b3 ^ b1) ^ b) ^ ((e3 ^ e2) ^ e) ^ (d3 ^ d));
        t.push((a3 ^ a) ^ ((b3 ^ b2) ^ b1) ^ ((e3 ^ e1) ^ e) ^ ((d3 ^ d2) ^ d));
        t.push(((a3 ^ a2) ^ a) ^ (b3 ^ b) ^ ((e3 ^ e2) ^ e1) ^ ((d3 ^ d1) ^ d));
        t.push(((a3 ^ a1) ^ a) ^ ((b3 ^ b2) ^ b) ^ (e3 ^ e) ^ ((d3 ^ d2) ^ d1));
    }
    {
        let a = s[8];
        let b = s[9];
        let e = s[10];
        let d = s[11];
        let a1 = xt_x(a);
        let a2 = xt_x(a1);
        let a3 = xt_x(a2);
        let b1 = xt_x(b);
        let b2 = xt_x(b1);
        let b3 = xt_x(b2);
        let e1 = xt_x(e);
        let e2 = xt_x(e1);
        let e3 = xt_x(e2);
        let d1 = xt_x(d);
        let d2 = xt_x(d1);
        let d3 = xt_x(d2);
        t.push(((a3 ^ a2) ^ a1) ^ ((b3 ^ b1) ^ b) ^ ((e3 ^ e2) ^ e) ^ (d3 ^ d));
        t.push((a3 ^ a) ^ ((b3 ^ b2) ^ b1) ^ ((e3 ^ e1) ^ e) ^ ((d3 ^ d2) ^ d));
        t.push(((a3 ^ a2) ^ a) ^ (b3 ^ b) ^ ((e3 ^ e2) ^ e1) ^ ((d3 ^ d1) ^ d));
        t.push(((a3 ^ a1) ^ a) ^ ((b3 ^ b2) ^ b) ^ (e3 ^ e) ^ ((d3 ^ d2) ^ d1));
    }
    {
        let a = s[12];
        let b = s[13];
        let e = s[14];
        let d = s[15];
        let a1 = xt_x(a);
        let a2 = xt_x(a1);
        let a3 = xt_x(a2);
        let b1 = xt_x(b);
        let b2 = xt_x(b1);
        let b3 = xt_x(b2);
        let e1 = xt_x(e);
        let e2 = xt_x(e1);
        let e3 = xt_x(e2);
        let d1 = xt_x(d);
        let d2 = xt_x(d1);
        let d3 = xt_x(d2);
        t.push(((a3 ^ a2) ^ a1) ^ ((b3 ^ b1) ^ b) ^ ((e3 ^ e2) ^ e) ^ (d3 ^ d));
        t.push((a3 ^ a) ^ ((b3 ^ b2) ^ b1) ^ ((e3 ^ e1) ^ e) ^ ((d3 ^ d2) ^ d));
        t.push(((a3 ^ a2) ^ a) ^ (b3 ^ b) ^ ((e3 ^ e2) ^ e1) ^ ((d3 ^ d1) ^ d));
        t.push(((a3 ^ a1) ^ a) ^ ((b3 ^ b2) ^ b) ^ (e3 ^ e) ^ ((d3 ^ d2) ^ d1));
    }
    proof {
        assert(t@ =~= inv_mix_c(s@));
    }
    t
}


/// One middle decryption round, executable.
#[verifier::spinoff_prover]
#[verifier::rlimit(100)]
fn inv_round_x(st: &Vec<u8>, w: &Vec<u8>, r: usize) -> (t: Vec<u8>)
    requires
        st@.len() == 16,
        w@.len() >= 16 * r + 16,
    ensures
        t@ == inv_round(st@, rk(w@, r as int)),
        t@.len() == 16,
{
    let t1v = inv_shift_x(st);
    let t2v = inv_sub_x(&t1v);
    let t3v = ark_x(&t2v, w, r);
    let t4v = inv_mix_x(&t3v);
    t4v
}

/// One middle encryption round, executable.
#[verifier::spinoff_prover]
#[verifier::rlimit(100)]
fn fwd_round_x(st: &Vec<u8>, w: &Vec<u8>, r: usize) -> (t: Vec<u8>)
    requires
        st@.len() == 16,
        w@.len() >= 16 * r + 16,
    ensures
        t@ == fwd_round(st@, rk(w@, r as int)),
        t@.len() == 16,
{
    let t1v = sub_x(st);
    let t2v = shift_x(&t1v);
    let t3v = mix_x(&t2v);
    let t4v = ark_x(&t3v, w, r);
    t4v
}

impl Rijndael {
    /// Decrypts one 16-byte block.
    #[verifier::spinoff_prover]
    #[verifier::rlimit(100)]
    pub fn decrypt_block(&self, ct: &[u8]) -> (r: Vec<u8>)
        requires
            self.wf(),
            ct@.len() == 16,
        ensures
            r@ == spec_decrypt_block(self.schedule@, self.rounds as int, ct@),
            r@.len() == 16,
    {
        let ghost nr = self.rounds as int;
        let mut st: Vec<u8> = Vec::new();
        let mut i: usize = 0;
        while i < 16
            invariant
                i <= 16,
                st@.len() == i,
                ct@.len() == 16,
                forall|j: int| 0 <= j < i ==> st@[j] == ct@[j],
            decreases 16 - i,
        {
            st.push(ct[i]);
            i = i + 1;
        }
        proof {
            assert(st@ =~= ct@);
        }
        let mut st = ark_x(&st, &self.schedule, self.rounds);
        let ghost s0 = add_rk(ct@, rk(self.schedule@, nr));
        let mut k: usize = 1;
        while k < self.rounds
            invariant
                self.wf(),
                1 <= k <= self.rounds,
                nr == self.rounds as int,
                s0 == add_rk(ct@, rk(self.schedule@, nr)),
                st@ == inv_rounds(self.schedule@, s0, nr, (k - 1) as nat),
                st@.len() == 16,
            decreases self.rounds - k,
        {
            let t4v = inv_round_x(&st, &self.schedule, self.rounds - k);
            proof {
                assert(t4v@ == inv_rounds(self.schedule@, s0, nr, k as nat));
            }
            st = t4v;
            k = k + 1;
        }
        let t1v = inv_shift_x(&st);
        let t2v = inv_sub_x(&t1v);
        let r = ark_x(&t2v, &self.schedule, 0);
        proof {
            assert(r@ == spec_decrypt_block(self.schedule@, nr, ct@)) by {
                reveal(spec_decrypt_block);
            }
        }
        r
    }

    /// Encrypts one 16-byte block.
    #[verifier::spinoff_prover]
    #[verifier::rlimit(100)]
    pub fn encrypt_block(&self, pt: &[u8]) -> (r: Vec<u8>)
        requires
            self.wf(),
            pt@.len() == 16,
        ensures
            r@ == spec_encrypt_block(self.schedule@, self.rounds as int, pt@),
            r@.len() == 16,
    {
        let ghost nr = self.rounds as int;
        let mut st: Vec<u8> = Vec::new();
        let mut i: usize = 0;
        while i < 16
            invariant
                i <= 16,
                st@.len() == i,
                pt@.len() == 16,
                forall|j: int| 0 <= j < i ==> st@[j] == pt@[j],
            decreases 16 - i,
        {
            st.push(pt[i]);
            i = i + 1;
        }
        proof {
            assert(st@ =~= pt@);
        }
        let mut st = ark_x(&st, &self.schedule, 0);
        let ghost s0 = add_rk(pt@, rk(self.schedule@, 0));
        let mut k: usize = 1;
        while k < self.rounds
            invariant
                self.wf(),
                1 <= k <= self.rounds,
                nr == self.rounds as int,
                s0 == add_rk(pt@, rk(self.schedule@, 0)),
                st@ == fwd_rounds(self.schedule@, s0, (k - 1) as nat),
                st@.len() == 16,
            decreases self.rounds - k,
        {
            let t4v = fwd_round_x(&st, &self.schedule, k);
            proof {
                assert(t4v@ == fwd_rounds(self.schedule@, s0, k as nat));
            }
            st = t4v;
            k = k + 1;
        }
        let t1v = sub_x(&st);
        let t2v = shift_x(&t1v);
        let r = ark_x(&t2v, &self.schedule, self.rounds);
        proof {
            assert(r@ == spec_encrypt_block(self.schedule@, nr, pt@)) by {
                reveal(spec_encrypt_block);
            }
        }
        r
    }

    /// Decrypts a whole buffer block by block; a buffer that is not a whole
    /// number of blocks is a corrupt-length condition.
    #[verifier::rlimit(100)]
    pub fn decrypt(&self, data: &[u8]) -> (r: Result<Vec<u8>, ParserError>)
        requires
            self.wf(),
        ensures
            r is Ok <==> data@.len() % 16 == 0,
            r is Ok ==> r->Ok_0@ == spec_decrypt_ecb(self.schedule@, self.rounds as int, data@)
                && r->Ok_0@.len() == data@.len(),
            r is Err ==> r->Err_0 is Crypto,
    {
        let ghost nr = self.rounds as int;
        if data.len() % 16 != 0 {
            return Err(ParserError::Crypto);
        }
        let n = data.len() / 16;
        let dl = data.len();
        proof {
            assert(16 * (data@.len() as int / 16) == data@.len() as int);
        }
        let mut out: Vec<u8> = Vec::new();
        let mut i: usize = 0;
        while i < n
            invariant
                self.wf(),
                nr == self.rounds as int,
                i <= n,
                n == data@.len() / 16,
                dl == data@.len(),
                16 * n == data@.len(),
                data@.len() % 16 == 0,
                out@ == spec_decrypt_ecb(self.schedule@, nr, data@.subrange(0, 16 * i)),
                out@.len() == 16 * i,
            decreases n - i,
        {
            proof {
                assert(16 * i + 16 <= data@.len());
            }
            let block = slice_subrange(data, 16 * i, 16 * i + 16);
            let mut pb = self.decrypt_block(block);
            proof {
                lemma_decrypt_ecb_snoc(self.schedule@, nr, data@.subrange(0, 16 * i), block@);
                assert(data@.subrange(0, 16 * (i + 1)) =~= data@.subrange(0, 16 * i) + block@);
            }
            out.append(&mut pb);
            i = i + 1;
        }
        proof {
            assert(data@.subrange(0, 16 * (data@.len() as int / 16)) =~= data@);
        }
        Ok(out)
    }

    /// Encrypts a whole buffer block by block; a buffer that is not a whole
    /// number of blocks is a corrupt-length condition.
    #[verifier::rlimit(100)]
    pub fn encrypt(&self, data: &[u8]) -> (r: Result<Vec<u8>, ParserError>)
        requires
            self.wf(),
        ensures
            r is Ok <==> data@.len() % 16 == 0,
            r is Ok ==> r->Ok_0@ == spec_encrypt_ecb(self.schedule@, self.rounds as int, data@)
                && r->Ok_0@.len() == data@.len(),
            r is Err ==> r->Err_0 is Crypto,
    {
        let ghost nr = self.rounds as int;
        if data.len() % 16 != 0 {
            return Err(ParserError::Crypto);
        }
        let n = data.len() / 16;
        let dl = data.len();
        proof {
            assert(16 * (data@.len() as int / 16) == data@.len() as int);
        }
        let mut out: Vec<u8> = Vec::new();
        let mut i: usize = 0;
        while i < n
            invariant
                self.wf(),
                nr == self.rounds as int,
                i <= n,
                n == data@.len() / 16,
                dl == data@.len(),
                16 * n == data@.len(),
                data@.len() % 16 == 0,
                out@ == spec_encrypt_ecb(self.schedule@, nr, data@.subrange(0, 16 * i)),
                out@.len() == 16 * i,
            decreases n - i,
        {
            proof {
                assert(16 * i + 16 <= data@.len());
            }
            let block = slice_subrange(data, 16 * i, 16 * i + 16);
            let mut pb = self.encrypt_block(block);
            proof {
                lemma_encrypt_ecb_snoc(self.schedule@, nr, data@.subrange(0, 16 * i), block@);
                assert(data@.subrange(0, 16 * (i + 1)) =~= data@.subrange(0, 16 * i) + block@);
            }
            out.append(&mut pb);
            i = i + 1;
        }
        proof {
            assert(data@.subrange(0, 16 * (data@.len() as int / 16)) =~= data@);
        }
        Ok(out)
    }
}

// ===== the round-trip law and its supporting lemmas =====

/// Xoring the same byte twice gives the byte back.
proof fn lemma_xor_cancel()
    by (bit_vector)
    ensures
        forall|x: u8, y: u8| #[trigger] ((x ^ y) ^ y) == x,
{
}

/// Adding the same round key twice gives the state back.
proof fn lemma_ark_cancel(s: Seq<u8>, k: Seq<u8>)
    requires
        s.len() == 16,
    ensures
        add_rk(add_rk(s, k), k) == s,
{
    lemma_xor_cancel();
    assert(add_rk(add_rk(s, k), k) =~= s);
}

/// The forward row shift undoes the inverse row shift.
proof fn lemma_shift_cancel(s: Seq<u8>)
    requires
        s.len() == 16,
    ensures
        shift_r(inv_shift_r(s)) == s,
{
    assert(shift_r(inv_shift_r(s)) =~= s);
}

/// The forward substitution undoes the inverse substitution.
proof fn lemma_sub_cancel(s: Seq<u8>)
    requires
        s.len() == 16,
    ensures
        sub_b(inv_sub_b(s)) == s,
{
    lemma_sbox_bijection();
    assert(sub_b(inv_sub_b(s)) =~= s);
}

/// Forward column mixing undoes inverse column mixing, one column at a time.
proof fn lemma_mix_col_inverse()
    by (bit_vector)
    ensures
        forall|a: u8, b: u8, c: u8, d: u8|
            #[trigger] mc0(im0(a, b, c, d), im1(a, b, c, d), im2(a, b, c, d), im3(a, b, c, d)) == a,
        forall|a: u8, b: u8, c: u8, d: u8|
            #[trigger] mc1(im0(a, b, c, d), im1(a, b, c, d), im2(a, b, c, d), im3(a, b, c, d)) == b,
        forall|a: u8, b: u8, c: u8, d: u8|
            #[trigger] mc2(im0(a, b, c, d), im1(a, b, c, d), im2(a, b, c, d), im3(a, b, c, d)) == c,
        forall|a: u8, b: u8, c: u8, d: u8|
            #[trigger] mc3(im0(a, b, c, d), im1(a, b, c, d), im2(a, b, c, d), im3(a, b, c, d)) == d,
{
}

/// Forward column mixing undoes inverse column mixing on the whole state.
proof fn lemma_mix_cancel(s: Seq<u8>)
    requires
        s.len() == 16,
    ensures
        mix_c(inv_mix_c(s)) == s,
{
    lemma_mix_col_inverse();
    assert(mix_c(inv_mix_c(s)) =~= s);
}

/// The middle decryption rounds keep the state 16 bytes long.
proof fn lemma_inv_rounds_len(w: Seq<u8>, s: Seq<u8>, nr: int, k: nat)
    requires
        s.len() == 16,
    ensures
        inv_rounds(w, s, nr, k).len() == 16,
    decreases k,
{
    if k > 0 {
        lemma_inv_rounds_len(w, s, nr, (k - 1) as nat);
    }
}

/// The forward middle rounds retrace the inverse middle rounds step by step.
#[verifier::spinoff_prover]
#[verifier::rlimit(100)]
proof fn lemma_rt_rounds(w: Seq<u8>, ct: Seq<u8>, nr: int, k: nat)
    requires
        ct.len() == 16,
        1 <= nr,
        k <= nr - 1,
    ensures
        fwd_rounds(
            w,
            inv_sub_b(inv_shift_r(inv_rounds(w, add_rk(ct, rk(w, nr)), nr, (nr - 1) as nat))),
            k,
        ) == inv_sub_b(inv_shift_r(inv_rounds(w, add_rk(ct, rk(w, nr)), nr, (nr - 1 - k) as nat))),
    decreases k,
{
    let s0 = add_rk(ct, rk(w, nr));
    if k > 0 {
        lemma_rt_rounds(w, ct, nr, (k - 1) as nat);
        let dprev = inv_rounds(w, s0, nr, (nr - k) as nat);
        let dnext = inv_rounds(w, s0, nr, (nr - 1 - k) as nat);
        lemma_inv_rounds_len(w, s0, nr, (nr - 1 - k) as nat);
        lemma_inv_rounds_len(w, s0, nr, (nr - k) as nat);
        assert(dprev == inv_round(dnext, rk(w, k as int)));
        let z = add_rk(inv_sub_b(inv_shift_r(dnext)), rk(w, k as int));
        lemma_sub_cancel(inv_shift_r(dprev));
        lemma_shift_cancel(dprev);
        lemma_mix_cancel(z);
        lemma_ark_cancel(inv_sub_b(inv_shift_r(dnext)), rk(w, k as int));
        assert(fwd_round(inv_sub_b(inv_shift_r(dprev)), rk(w, k as int))
            == inv_sub_b(inv_shift_r(dnext)));
    }
}

/// Law: encrypting the decryption of one block reproduces the block.
#[verifier::spinoff_prover]
#[verifier::rlimit(100)]
pub proof fn lemma_block_round_trip(w: Seq<u8>, nr: int, ct: Seq<u8>)
    requires
        ct.len() == 16,
        1 <= nr,
    ensures
        spec_encrypt_block(w, nr, spec_decrypt_block(w, nr, ct)) == ct,
{
    reveal(spec_decrypt_block);
    reveal(spec_encrypt_block);
    let s0 = add_rk(ct, rk(w, nr));
    let dlast = inv_rounds(w, s0, nr, (nr - 1) as nat);
    lemma_inv_rounds_len(w, s0, nr, (nr - 1) as nat);
    lemma_ark_cancel(inv_sub_b(inv_shift_r(dlast)), rk(w, 0));
    lemma_rt_rounds(w, ct, nr, (nr - 1) as nat);
    lemma_sub_cancel(inv_shift_r(s0));
    lemma_shift_cancel(s0);
    lemma_ark_cancel(ct, rk(w, nr));
}

/// Decrypting one more trailing block appends its decryption.
#[verifier::spinoff_prover]
#[verifier::rlimit(100)]
proof fn lemma_decrypt_ecb_snoc(w: Seq<u8>, nr: int, d: Seq<u8>, b: Seq<u8>)
    requires
        d.len() % 16 == 0,
        b.len() == 16,
    ensures
        spec_decrypt_ecb(w, nr, d + b) == spec_decrypt_ecb(w, nr, d) + spec_decrypt_block(
            w,
            nr,
            b,
        ),
    decreases d.len(),
{
    if d.len() == 0 {
        assert(d + b =~= b);
        assert(b.subrange(0, 16) =~= b);
        assert(b.subrange(16, b.len() as int) =~= Seq::<u8>::empty());
        let y = spec_decrypt_block(w, nr, b);
        assert(spec_decrypt_ecb(w, nr, b) == y + spec_decrypt_ecb(w, nr, Seq::<u8>::empty()));
        Seq::<u8>::add_empty_right(y, spec_decrypt_ecb(w, nr, Seq::<u8>::empty()));
        assert(spec_decrypt_ecb(w, nr, d) == Seq::<u8>::empty());
        Seq::<u8>::add_empty_left(spec_decrypt_ecb(w, nr, d), y);
    } else {
        let d0 = d.subrange(0, 16);
        let drest = d.subrange(16, d.len() as int);
        assert((d + b).subrange(0, 16) =~= d0);
        assert((d + b).subrange(16, (d + b).len() as int) =~= drest + b);
        lemma_decrypt_ecb_snoc(w, nr, drest, b);
        let a = spec_decrypt_block(w, nr, d0);
        let x = spec_decrypt_ecb(w, nr, drest);
        let y = spec_decrypt_block(w, nr, b);
        assert(spec_decrypt_ecb(w, nr, d + b) == a + (x + y));
        crate::cipher::seq_concat_assoc(a, x, y);
        assert(spec_decrypt_ecb(w, nr, d) == a + x);
    }
}

/// Encrypting one more trailing block appends its encryption.
#[verifier::spinoff_prover]
#[verifier::rlimit(100)]
proof fn lemma_encrypt_ecb_snoc(w: Seq<u8>, nr: int, d: Seq<u8>, b: Seq<u8>)
    requires
        d.len() % 16 == 0,
        b.len() == 16,
    ensures
        spec_encrypt_ecb(w, nr, d + b) == spec_encrypt_ecb(w, nr, d) + spec_encrypt_block(
            w,
            nr,
            b,
        ),
    decreases d.len(),
{
    if d.len() == 0 {
        assert(d + b =~= b);
        assert(b.subrange(0, 16) =~= b);
        assert(b.subrange(16, b.len() as int) =~= Seq::<u8>::empty());
        let y = spec_encrypt_block(w, nr, b);
        assert(spec_encrypt_ecb(w, nr, b) == y + spec_encrypt_ecb(w, nr, Seq::<u8>::empty()));
        Seq::<u8>::add_empty_right(y, spec_encrypt_ecb(w, nr, Seq::<u8>::empty()));
        assert(spec_encrypt_ecb(w, nr, d) == Seq::<u8>::empty());
        Seq::<u8>::add_empty_left(spec_encrypt_ecb(w, nr, d), y);
    } else {
        let d0 = d.subrange(0, 16);
        let drest = d.subrange(16, d.len() as int);
        assert((d + b).subrange(0, 16) =~= d0);
        assert((d + b).subrange(16, (d + b).len() as int) =~= drest + b);
        lemma_encrypt_ecb_snoc(w, nr, drest, b);
        let a = spec_encrypt_block(w, nr, d0);
        let x = spec_encrypt_ecb(w, nr, drest);
        let y = spec_encrypt_block(w, nr, b);
        assert(spec_encrypt_ecb(w, nr, d + b) == a + (x + y));
        crate::cipher::seq_concat_assoc(a, x, y);
        assert(spec_encrypt_ecb(w, nr, d) == a + x);
    }
}


/// Concatenation of byte sequences is associative.
proof fn seq_concat_assoc(a: Seq<u8>, b: Seq<u8>, c: Seq<u8>)
    ensures
        a + (b + c) == (a + b) + c,
{
    assert(a + (b + c) =~= (a + b) + c);
}

/// Law: re-encrypting the decryption of a whole-block buffer under the same
/// schedule reproduces the original ciphertext exactly.
#[verifier::spinoff_prover]
#[verifier::rlimit(100)]
pub proof fn lemma_ecb_round_trip(w: Seq<u8>, nr: int, ct: Seq<u8>)
    requires
        ct.len() % 16 == 0,
        1 <= nr,
    ensures
        spec_encrypt_ecb(w, nr, spec_decrypt_ecb(w, nr, ct)) == ct,
    decreases ct.len(),
{
    if ct.len() == 0 {
        assert(spec_encrypt_ecb(w, nr, spec_decrypt_ecb(w, nr, ct)) =~= ct);
    } else {
        let b0 = ct.subrange(0, 16);
        let rest = ct.subrange(16, ct.len() as int);
        lemma_ecb_round_trip(w, nr, rest);
        let pb = spec_decrypt_block(w, nr, b0);
        let prest = spec_decrypt_ecb(w, nr, rest);
        assert(pb.len() == 16) by {
            reveal(spec_decrypt_block);
        }
        assert((pb + prest).subrange(0, 16) =~= pb);
        assert((pb + prest).subrange(16, (pb + prest).len() as int) =~= prest);
        assert(spec_decrypt_ecb(w, nr, ct) == pb + prest);
        lemma_block_round_trip(w, nr, b0);
        assert(spec_encrypt_ecb(w, nr, pb + prest) == spec_encrypt_block(w, nr, pb)
            + spec_encrypt_ecb(w, nr, prest));
        assert(spec_encrypt_block(w, nr, pb) + spec_encrypt_ecb(w, nr, prest) =~= ct);
    }
}

/// Law: decrypting a whole-block ciphertext with the schedule of a key and
/// re-encrypting the plaintext with the same key's schedule reproduces the
/// ciphertext exactly.
pub proof fn lemma_decrypt_encrypt_round_trip(key: Seq<u8>, ct: Seq<u8>)
    requires
        valid_key_len(key.len()),
        ct.len() % 16 == 0,
    ensures
        spec_encrypt_ecb(
            spec_expand_key(key),
            nr_of(key.len() as int),
            spec_decrypt_ecb(spec_expand_key(key), nr_of(key.len() as int), ct),
        ) == ct,
{
    lemma_ecb_round_trip(spec_expand_key(key), nr_of(key.len() as int), ct);
}

} // verus!
