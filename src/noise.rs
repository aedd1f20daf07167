use vstd::prelude::*;
use crate::axis::Axis;

verus! {

/// The number of lattice cells along each axis before the noise repeats.
pub const NOISE_SIZE: usize = 256;

/// The permutation that hashes lattice corners, written out twice so that
/// a corner's hash can be looked up without wrapping. The first
/// `NOISE_SIZE` entries hold every byte value, so they are a permutation of
/// `0 ..= 255`.
#[verifier::rlimit(100)]
pub fn noise_table() -> (r: Vec<u8>)
    ensures
        r@.len() == 2 * NOISE_SIZE,
        forall|i: int| 0 <= i < NOISE_SIZE ==> #[trigger] r@[i + NOISE_SIZE] == r@[i],
        forall|v: u8| r@.subrange(0, NOISE_SIZE as int).contains(v),
{
    let mut table: Vec<u8> = vec![
        63, 147, 186, 78, 92, 53, 229, 76, 14, 204, 183, 99, 237, 241, 59, 167,
        118, 23, 29, 44, 82, 37, 6, 249, 131, 253, 210, 28, 71, 96, 3, 207,
        115, 32, 158, 61, 215, 220, 116, 40, 48, 93, 179, 196, 141, 0, 165, 185,
        145, 217, 139, 216, 250, 235, 39, 232, 124, 146, 5, 77, 180, 4, 31, 203,
        154, 178, 226, 25, 20, 130, 22, 240, 252, 163, 75, 90, 51, 89, 151, 193,
        33, 69, 21, 149, 208, 244, 238, 191, 161, 36, 38, 81, 181, 56, 43, 127,
        34, 243, 65, 200, 97, 247, 79, 231, 98, 11, 100, 142, 15, 166, 45, 209,
        223, 66, 119, 155, 49, 153, 113, 41, 133, 197, 157, 112, 46, 91, 74, 27,
        128, 228, 16, 248, 174, 187, 87, 95, 30, 110, 212, 175, 144, 135, 225, 172,
        221, 170, 67, 9, 111, 224, 239, 176, 117, 109, 177, 202, 132, 80, 125, 62,
        251, 108, 148, 103, 227, 50, 17, 35, 24, 126, 164, 42, 156, 10, 182, 218,
        70, 246, 150, 73, 213, 138, 129, 189, 188, 84, 160, 134, 105, 83, 169, 121,
        233, 194, 19, 114, 55, 211, 58, 104, 254, 57, 18, 123, 102, 140, 8, 171,
        68, 206, 168, 86, 136, 152, 47, 60, 88, 101, 26, 122, 13, 192, 94, 198,
        64, 234, 195, 52, 245, 54, 236, 219, 12, 106, 143, 120, 7, 190, 1, 2,
        205, 222, 159, 162, 173, 85, 107, 201, 184, 214, 137, 230, 255, 242, 72, 199,
    ];
    assert(table@.len() == NOISE_SIZE);
    assert forall|v: u8| table@.contains(v) by {
            if v == 0 {
                assert(table@[45] == v);
            } else if v == 1 {
                assert(table@[238] == v);
            } else if v == 2 {
                assert(table@[239] == v);
            } else if v == 3 {
                assert(table@[30] == v);
            } else if v == 4 {
                assert(table@[61] == v);
            } else if v == 5 {
                assert(table@[58] == v);
            } else if v == 6 {
                assert(table@[22] == v);
            } else if v == 7 {
                assert(table@[236] == v);
            } else if v == 8 {
                assert(table@[206] == v);
            } else if v == 9 {
                assert(table@[147] == v);
            } else if v == 10 {
                assert(table@[173] == v);
            } else if v == 11 {
                assert(table@[105] == v);
            } else if v == 12 {
                assert(table@[232] == v);
            } else if v == 13 {
                assert(table@[220] == v);
            } else if v == 14 {
                assert(table@[8] == v);
            } else if v == 15 {
                assert(table@[108] == v);
            } else if v == 16 {
                assert(table@[130] == v);
            } else if v == 17 {
                assert(table@[166] == v);
            } else if v == 18 {
                assert(table@[202] == v);
            } else if v == 19 {
                assert(table@[194] == v);
            } else if v == 20 {
                assert(table@[68] == v);
            } else if v == 21 {
                assert(table@[82] == v);
            } else if v == 22 {
                assert(table@[70] == v);
            } else if v == 23 {
                assert(table@[17] == v);
            } else if v == 24 {
                assert(table@[168] == v);
            } else if v == 25 {
                assert(table@[67] == v);
            } else if v == 26 {
                assert(table@[218] == v);
            } else if v == 27 {
                assert(table@[127] == v);
            } else if v == 28 {
                assert(table@[27] == v);
            } else if v == 29 {
                assert(table@[18] == v);
            } else if v == 30 {
                assert(table@[136] == v);
            } else if v == 31 {
                assert(table@[62] == v);
            } else if v == 32 {
                assert(table@[33] == v);
            } else if v == 33 {
                assert(table@[80] == v);
            } else if v == 34 {
                assert(table@[96] == v);
            } else if v == 35 {
                assert(table@[167] == v);
            } else if v == 36 {
                assert(table@[89] == v);
            } else if v == 37 {
                assert(table@[21] == v);
            } else if v == 38 {
                assert(table@[90] == v);
            } else if v == 39 {
                assert(table@[54] == v);
            } else if v == 40 {
                assert(table@[39] == v);
            } else if v == 41 {
                assert(table@[119] == v);
            } else if v == 42 {
                assert(table@[171] == v);
            } else if v == 43 {
                assert(table@[94] == v);
            } else if v == 44 {
                assert(table@[19] == v);
            } else if v == 45 {
                assert(table@[110] == v);
            } else if v == 46 {
                assert(table@[124] == v);
            } else if v == 47 {
                assert(table@[214] == v);
            } else if v == 48 {
                assert(table@[40] == v);
            } else if v == 49 {
                assert(table@[116] == v);
            } else if v == 50 {
                assert(table@[165] == v);
            } else if v == 51 {
                assert(table@[76] == v);
            } else if v == 52 {
                assert(table@[227] == v);
            } else if v == 53 {
                assert(table@[5] == v);
            } else if v == 54 {
                assert(table@[229] == v);
            } else if v == 55 {
                assert(table@[196] == v);
            } else if v == 56 {
                assert(table@[93] == v);
            } else if v == 57 {
                assert(table@[201] == v);
            } else if v == 58 {
                assert(table@[198] == v);
            } else if v == 59 {
                assert(table@[14] == v);
            } else if v == 60 {
                assert(table@[215] == v);
            } else if v == 61 {
                assert(table@[35] == v);
            } else if v == 62 {
                assert(table@[159] == v);
            } else if v == 63 {
                assert(table@[0] == v);
            } else if v == 64 {
                assert(table@[224] == v);
            } else if v == 65 {
                assert(table@[98] == v);
            } else if v == 66 {
                assert(table@[113] == v);
            } else if v == 67 {
                assert(table@[146] == v);
            } else if v == 68 {
                assert(table@[208] == v);
            } else if v == 69 {
                assert(table@[81] == v);
            } else if v == 70 {
                assert(table@[176] == v);
            } else if v == 71 {
                assert(table@[28] == v);
            } else if v == 72 {
                assert(table@[254] == v);
            } else if v == 73 {
                assert(table@[179] == v);
            } else if v == 74 {
                assert(table@[126] == v);
            } else if v == 75 {
                assert(table@[74] == v);
            } else if v == 76 {
                assert(table@[7] == v);
            } else if v == 77 {
                assert(table@[59] == v);
            } else if v == 78 {
                assert(table@[3] == v);
            } else if v == 79 {
                assert(table@[102] == v);
            } else if v == 80 {
                assert(table@[157] == v);
            } else if v == 81 {
                assert(table@[91] == v);
            } else if v == 82 {
                assert(table@[20] == v);
            } else if v == 83 {
                assert(table@[189] == v);
            } else if v == 84 {
                assert(table@[185] == v);
            } else if v == 85 {
                assert(table@[245] == v);
            } else if v == 86 {
                assert(table@[211] == v);
            } else if v == 87 {
                assert(table@[134] == v);
            } else if v == 88 {
                assert(table@[216] == v);
            } else if v == 89 {
                assert(table@[77] == v);
            } else if v == 90 {
                assert(table@[75] == v);
            } else if v == 91 {
                assert(table@[125] == v);
            } else if v == 92 {
                assert(table@[4] == v);
            } else if v == 93 {
                assert(table@[41] == v);
            } else if v == 94 {
                assert(table@[222] == v);
            } else if v == 95 {
                assert(table@[135] == v);
            } else if v == 96 {
                assert(table@[29] == v);
            } else if v == 97 {
                assert(table@[100] == v);
            } else if v == 98 {
                assert(table@[104] == v);
            } else if v == 99 {
                assert(table@[11] == v);
            } else if v == 100 {
                assert(table@[106] == v);
            } else if v == 101 {
                assert(table@[217] == v);
            } else if v == 102 {
                assert(table@[204] == v);
            } else if v == 103 {
                assert(table@[163] == v);
            } else if v == 104 {
                assert(table@[199] == v);
            } else if v == 105 {
                assert(table@[188] == v);
            } else if v == 106 {
                assert(table@[233] == v);
            } else if v == 107 {
                assert(table@[246] == v);
            } else if v == 108 {
                assert(table@[161] == v);
            } else if v == 109 {
                assert(table@[153] == v);
            } else if v == 110 {
                assert(table@[137] == v);
            } else if v == 111 {
                assert(table@[148] == v);
            } else if v == 112 {
                assert(table@[123] == v);
            } else if v == 113 {
                assert(table@[118] == v);
            } else if v == 114 {
                assert(table@[195] == v);
            } else if v == 115 {
                assert(table@[32] == v);
            } else if v == 116 {
                assert(table@[38] == v);
            } else if v == 117 {
                assert(table@[152] == v);
            } else if v == 118 {
                assert(table@[16] == v);
            } else if v == 119 {
                assert(table@[114] == v);
            } else if v == 120 {
                assert(table@[235] == v);
            } else if v == 121 {
                assert(table@[191] == v);
            } else if v == 122 {
                assert(table@[219] == v);
            } else if v == 123 {
                assert(table@[203] == v);
            } else if v == 124 {
                assert(table@[56] == v);
            } else if v == 125 {
                assert(table@[158] == v);
            } else if v == 126 {
                assert(table@[169] == v);
            } else if v == 127 {
                assert(table@[95] == v);
            } else if v == 128 {
                assert(table@[128] == v);
            } else if v == 129 {
                assert(table@[182] == v);
            } else if v == 130 {
                assert(table@[69] == v);
            } else if v == 131 {
                assert(table@[24] == v);
            } else if v == 132 {
                assert(table@[156] == v);
            } else if v == 133 {
                assert(table@[120] == v);
            } else if v == 134 {
                assert(table@[187] == v);
            } else if v == 135 {
                assert(table@[141] == v);
            } else if v == 136 {
                assert(table@[212] == v);
            } else if v == 137 {
                assert(table@[250] == v);
            } else if v == 138 {
                assert(table@[181] == v);
            } else if v == 139 {
                assert(table@[50] == v);
            } else if v == 140 {
                assert(table@[205] == v);
            } else if v == 141 {
                assert(table@[44] == v);
            } else if v == 142 {
                assert(table@[107] == v);
            } else if v == 143 {
                assert(table@[234] == v);
            } else if v == 144 {
                assert(table@[140] == v);
            } else if v == 145 {
                assert(table@[48] == v);
            } else if v == 146 {
                assert(table@[57] == v);
            } else if v == 147 {
                assert(table@[1] == v);
            } else if v == 148 {
                assert(table@[162] == v);
            } else if v == 149 {
                assert(table@[83] == v);
            } else if v == 150 {
                assert(table@[178] == v);
            } else if v == 151 {
                assert(table@[78] == v);
            } else if v == 152 {
                assert(table@[213] == v);
            } else if v == 153 {
                assert(table@[117] == v);
            } else if v == 154 {
                assert(table@[64] == v);
            } else if v == 155 {
                assert(table@[115] == v);
            } else if v == 156 {
                assert(table@[172] == v);
            } else if v == 157 {
                assert(table@[122] == v);
            } else if v == 158 {
                assert(table@[34] == v);
            } else if v == 159 {
                assert(table@[242] == v);
            } else if v == 160 {
                assert(table@[186] == v);
            } else if v == 161 {
                assert(table@[88] == v);
            } else if v == 162 {
                assert(table@[243] == v);
            } else if v == 163 {
                assert(table@[73] == v);
            } else if v == 164 {
                assert(table@[170] == v);
            } else if v == 165 {
                assert(table@[46] == v);
            } else if v == 166 {
                assert(table@[109] == v);
            } else if v == 167 {
                assert(table@[15] == v);
            } else if v == 168 {
                assert(table@[210] == v);
            } else if v == 169 {
                assert(table@[190] == v);
            } else if v == 170 {
                assert(table@[145] == v);
            } else if v == 171 {
                assert(table@[207] == v);
            } else if v == 172 {
                assert(table@[143] == v);
            } else if v == 173 {
                assert(table@[244] == v);
            } else if v == 174 {
                assert(table@[132] == v);
            } else if v == 175 {
                assert(table@[139] == v);
            } else if v == 176 {
                assert(table@[151] == v);
            } else if v == 177 {
                assert(table@[154] == v);
            } else if v == 178 {
                assert(table@[65] == v);
            } else if v == 179 {
                assert(table@[42] == v);
            } else if v == 180 {
                assert(table@[60] == v);
            } else if v == 181 {
                assert(table@[92] == v);
            } else if v == 182 {
                assert(table@[174] == v);
            } else if v == 183 {
                assert(table@[10] == v);
            } else if v == 184 {
                assert(table@[248] == v);
            } else if v == 185 {
                assert(table@[47] == v);
            } else if v == 186 {
                assert(table@[2] == v);
            } else if v == 187 {
                assert(table@[133] == v);
            } else if v == 188 {
                assert(table@[184] == v);
            } else if v == 189 {
                assert(table@[183] == v);
            } else if v == 190 {
                assert(table@[237] == v);
            } else if v == 191 {
                assert(table@[87] == v);
            } else if v == 192 {
                assert(table@[221] == v);
            } else if v == 193 {
                assert(table@[79] == v);
            } else if v == 194 {
                assert(table@[193] == v);
            } else if v == 195 {
                assert(table@[226] == v);
            } else if v == 196 {
                assert(table@[43] == v);
            } else if v == 197 {
                assert(table@[121] == v);
            } else if v == 198 {
                assert(table@[223] == v);
            } else if v == 199 {
                assert(table@[255] == v);
            } else if v == 200 {
                assert(table@[99] == v);
            } else if v == 201 {
                assert(table@[247] == v);
            } else if v == 202 {
                assert(table@[155] == v);
            } else if v == 203 {
                assert(table@[63] == v);
            } else if v == 204 {
                assert(table@[9] == v);
            } else if v == 205 {
                assert(table@[240] == v);
            } else if v == 206 {
                assert(table@[209] == v);
            } else if v == 207 {
                assert(table@[31] == v);
            } else if v == 208 {
                assert(table@[84] == v);
            } else if v == 209 {
                assert(table@[111] == v);
            } else if v == 210 {
                assert(table@[26] == v);
            } else if v == 211 {
                assert(table@[197] == v);
            } else if v == 212 {
                assert(table@[138] == v);
            } else if v == 213 {
                assert(table@[180] == v);
            } else if v == 214 {
                assert(table@[249] == v);
            } else if v == 215 {
                assert(table@[36] == v);
            } else if v == 216 {
                assert(table@[51] == v);
            } else if v == 217 {
                assert(table@[49] == v);
            } else if v == 218 {
                assert(table@[175] == v);
            } else if v == 219 {
                assert(table@[231] == v);
            } else if v == 220 {
                assert(table@[37] == v);
            } else if v == 221 {
                assert(table@[144] == v);
            } else if v == 222 {
                assert(table@[241] == v);
            } else if v == 223 {
                assert(table@[112] == v);
            } else if v == 224 {
                assert(table@[149] == v);
            } else if v == 225 {
                assert(table@[142] == v);
            } else if v == 226 {
                assert(table@[66] == v);
            } else if v == 227 {
                assert(table@[164] == v);
            } else if v == 228 {
                assert(table@[129] == v);
            } else if v == 229 {
                assert(table@[6] == v);
            } else if v == 230 {
                assert(table@[251] == v);
            } else if v == 231 {
                assert(table@[103] == v);
            } else if v == 232 {
                assert(table@[55] == v);
            } else if v == 233 {
                assert(table@[192] == v);
            } else if v == 234 {
                assert(table@[225] == v);
            } else if v == 235 {
                assert(table@[53] == v);
            } else if v == 236 {
                assert(table@[230] == v);
            } else if v == 237 {
                assert(table@[12] == v);
            } else if v == 238 {
                assert(table@[86] == v);
            } else if v == 239 {
                assert(table@[150] == v);
            } else if v == 240 {
                assert(table@[71] == v);
            } else if v == 241 {
                assert(table@[13] == v);
            } else if v == 242 {
                assert(table@[253] == v);
            } else if v == 243 {
                assert(table@[97] == v);
            } else if v == 244 {
                assert(table@[85] == v);
            } else if v == 245 {
                assert(table@[228] == v);
            } else if v == 246 {
                assert(table@[177] == v);
            } else if v == 247 {
                assert(table@[101] == v);
            } else if v == 248 {
                assert(table@[131] == v);
            } else if v == 249 {
                assert(table@[23] == v);
            } else if v == 250 {
                assert(table@[52] == v);
            } else if v == 251 {
                assert(table@[160] == v);
            } else if v == 252 {
                assert(table@[72] == v);
            } else if v == 253 {
                assert(table@[25] == v);
            } else if v == 254 {
                assert(table@[200] == v);
            } else {
                assert(table@[252] == v);
            }
    }
    let ghost base = table@;
    let mut i: usize = 0;
    while i < NOISE_SIZE
        invariant
            i <= NOISE_SIZE,
            table@.len() == NOISE_SIZE + i,
            forall|j: int| 0 <= j < i ==> #[trigger] table@[j + NOISE_SIZE] == table@[j],
            table@.subrange(0, NOISE_SIZE as int) == base,
            forall|v: u8| base.contains(v),
        decreases NOISE_SIZE - i,
    {
        let v = table[i];
        table.push(v);
        assert(table@.subrange(0, NOISE_SIZE as int) =~= base);
        i = i + 1;
    }
    table
}

/// The lattice cell of an integer coordinate: its lowest eight bits.
pub fn lattice_cell(coordinate: i32) -> (r: usize)
    ensures
        r == (coordinate & 255) as usize,
        r < NOISE_SIZE,
{
    let c = coordinate & 255;
    assert(0 <= c < 256) by (bit_vector)
        requires
            c == coordinate & 255,
    ;
    c as usize
}

/// The hash of lattice corner `(x, y, z)`: the table looked up three times.
pub open spec fn corner_hash(table: Seq<u8>, x: int, y: int, z: int) -> u8 {
    table[table[table[x] as int + y] as int + z]
}

/// The gradient number of lattice corner `(x, y, z)`, whose coordinates are
/// cells or cells plus one: the lowest four bits of the corner's hash.
pub fn gradient_index(table: &Vec<u8>, x: usize, y: usize, z: usize) -> (r: u8)
    requires
        table@.len() == 2 * NOISE_SIZE,
        x <= NOISE_SIZE,
        y <= NOISE_SIZE,
        z <= NOISE_SIZE,
    ensures
        r == corner_hash(table@, x as int, y as int, z as int) & 15,
        r < 16,
{
    let h = table[table[table[x] as usize + y] as usize + z];
    let r = h & 15;
    assert(r < 16) by (bit_vector)
        requires
            r == h & 15,
    ;
    r
}

/// Which offsets of a point from a lattice corner a gradient adds up, and
/// with which signs: the first term is the offset along `u`, the second
/// along `v`, each negated where its flag says so.
#[derive(Debug, PartialEq, Eq, Structural)]
pub struct GradientChoice {
    pub u: Axis,
    pub v: Axis,
    pub negate_u: bool,
    pub negate_v: bool,
}

/// The gradient that gradient number `val` stands for.
pub fn gradient_choice(val: u8) -> (r: GradientChoice)
    requires
        val < 16,
    ensures
        r.u == if val < 8 || val == 12 || val == 13 { Axis::X } else { Axis::Y },
        r.v == if val < 4 || val == 12 || val == 13 { Axis::Y } else { Axis::Z },
        r.negate_u == (val % 2 == 1),
        r.negate_v == ((val / 2) % 2 == 1),
{
    let u = if val < 8 || val == 12 || val == 13 { Axis::X } else { Axis::Y };
    let v = if val < 4 || val == 12 || val == 13 { Axis::Y } else { Axis::Z };
    let negate_u = val & 1 > 0;
    let negate_v = val & 2 > 0;
    assert(((val & 1) > 0) == (val % 2 == 1)) by (bit_vector);
    assert(((val & 2) > 0) == ((val / 2) % 2 == 1)) by (bit_vector);
    GradientChoice { u, v, negate_u, negate_v }
}

} // verus!
