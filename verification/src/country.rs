//! Two-letter country codes and the routing slots they hash to.
//!
//! A code is looked up through a two-level displacement table: the 16-bit
//! value of the code selects a bucket, the bucket's displacement shifts the
//! remainder to an entry of the slot table, and that entry is the slot. A
//! slot doubles as the offset of its code in [`CODES`], which gives the
//! inverse direction. All three tables are fixed data.
use vstd::prelude::*;

verus! {

/// Number of values of a code that share one displacement.
pub const BUCKET_SIZE: usize = 178;

/// Marks a bucket without displacement and an unused entry of the slot table.
pub const ABSENT: u16 = 255;

/// Length of [`CODES`]. A slot is the offset of a two-letter code in it, so
/// every slot is below `MAX_COUNTRY_HASH - 1`.
pub const MAX_COUNTRY_HASH: usize = 320;

/// Displacement of each bucket, [`ABSENT`] where the bucket holds no code.
pub const DISPLACEMENTS: [i16; 178] = [
    1, 255, 255, 255, 255, 255, 255, 255, 255, 255, 255, 255, 255, 255, 255, 255, 255, 255, 255,
    255, 255, 255, 255, 255, 255, 255, 255, 255, 255, 255, 255, 255, 255, 255, 255, 255, 255,
    255, 255, 255, 255, 255, 255, 255, 255, 255, 255, 255, 255, 255, 255, 255, 255, 255, 255,
    255, 255, 255, 255, 255, 255, 255, 255, 255, 255, 255, 255, 255, 255, 255, 255, 255, 255,
    255, 255, 255, 255, 255, 255, 255, 255, 255, 255, 255, 255, 255, 255, 255, 255, 255, 255,
    255, 255, 255, 255, 255, 255, 255, 255, 255, 255, 255, 255, 255, 255, 255, 255, 255, 255,
    255, 255, 255, 255, 255, 255, 255, 255, 255, 255, 255, 255, 255, 255, 255, 255, 255, 255,
    255, 255, 255, 255, 255, 255, 255, 255, 255, 255, 255, 255, 255, 65, -61, 33, 222, 175, 122,
    255, 234, -69, 255, 137, 210, 255, 70, 80, 101, 7, -55, 9, 255, -36, 10, 255, 25, 200, 44,
    183, 31, 145, 255, 190, -100, 255, 16, -59, 255, 128, 255,
];

/// Slot of each displaced remainder, [`ABSENT`] where the entry is unused.
pub const SLOTS: [u16; 329] = [
    12, 255, 3, 79, 286, 105, 5, 117, 308, 148, 39, 41, 0, 29, 228, 25, 270, 306, 1, 18, 81, 65,
    240, 254, 149, 140, 154, 7, 146, 222, 292, 186, 36, 192, 203, 179, 167, 164, 11, 176, 213,
    131, 260, 316, 8, 158, 162, 172, 234, 169, 276, 246, 47, 6, 255, 97, 124, 242, 22, 113, 49,
    150, 255, 109, 17, 61, 255, 37, 256, 230, 20, 23, 312, 196, 288, 255, 272, 142, 71, 137, 48,
    139, 63, 180, 122, 54, 28, 255, 262, 255, 294, 155, 13, 32, 103, 255, 318, 168, 255, 278,
    33, 151, 255, 77, 19, 159, 255, 298, 59, 69, 24, 45, 248, 255, 255, 126, 255, 44, 255, 101,
    280, 53, 255, 264, 255, 226, 252, 123, 268, 141, 255, 217, 198, 38, 208, 255, 255, 255, 238,
    26, 58, 116, 62, 302, 30, 284, 177, 91, 46, 255, 85, 145, 255, 75, 144, 255, 209, 52, 255,
    304, 255, 88, 135, 60, 99, 119, 255, 115, 118, 40, 74, 114, 57, 255, 93, 193, 255, 100, 160,
    218, 255, 310, 170, 132, 2, 51, 206, 255, 255, 300, 9, 43, 255, 95, 255, 224, 266, 250, 31,
    255, 15, 189, 255, 211, 16, 244, 67, 255, 56, 34, 4, 27, 10, 14, 215, 282, 255, 21, 236, 83,
    195, 73, 90, 201, 255, 255, 220, 255, 255, 290, 182, 274, 314, 258, 232, 102, 255, 66, 255,
    296, 255, 96, 255, 173, 152, 255, 255, 255, 134, 121, 98, 255, 80, 255, 190, 183, 70, 35,
    55, 255, 255, 255, 255, 255, 165, 143, 87, 89, 255, 128, 255, 108, 255, 110, 42, 76, 199,
    133, 255, 255, 255, 255, 129, 72, 125, 106, 138, 92, 255, 78, 136, 147, 255, 127, 187, 255,
    112, 255, 255, 255, 255, 255, 104, 156, 255, 255, 255, 94, 82, 111, 255, 130, 120, 107, 161,
    184, 255, 255, 255, 255, 86, 64, 84, 174, 255, 166, 204, 50, 68,
];

/// The codes as ASCII bytes, overlapping where the last letter of one is the
/// first letter of the next. As text:
///
///     mmsmcmgbbssbmasccgmtgsggtmpsamncatclbgpmkmlsttngagisnpalckptkgna
///     imvcitlaesknltfmdmusinilkecnfkrsvgdkhtvaumfieglrughnzmhkidjpgetr
///     eerwslvnuafjmzadzzwfomytdebarobthuyebliqaxkzbviobnebjocvuzbfrcdo
///     bhrsjeplucobirsopnocfbosdpkwcrbdsxpemogrczbwshprmwgfchbztoszpfmx
///     gqcybqaotzsyphmqgycwbyaztwsepymegwcubeaqvetjsrpwnrmrlykygucxbraw
pub const CODES: [u8; 320] = [
    109, 109, 115, 109, 99, 109, 103, 98, 98, 115, 115, 98, 109, 97, 115, 99, 99, 103, 109, 116,
    103, 115, 103, 103, 116, 109, 112, 115, 97, 109, 110, 99, 97, 116, 99, 108, 98, 103, 112,
    109, 107, 109, 108, 115, 116, 116, 110, 103, 97, 103, 105, 115, 110, 112, 97, 108, 99, 107,
    112, 116, 107, 103, 110, 97, 105, 109, 118, 99, 105, 116, 108, 97, 101, 115, 107, 110, 108,
    116, 102, 109, 100, 109, 117, 115, 105, 110, 105, 108, 107, 101, 99, 110, 102, 107, 114,
    115, 118, 103, 100, 107, 104, 116, 118, 97, 117, 109, 102, 105, 101, 103, 108, 114, 117,
    103, 104, 110, 122, 109, 104, 107, 105, 100, 106, 112, 103, 101, 116, 114, 101, 101, 114,
    119, 115, 108, 118, 110, 117, 97, 102, 106, 109, 122, 97, 100, 122, 122, 119, 102, 111, 109,
    121, 116, 100, 101, 98, 97, 114, 111, 98, 116, 104, 117, 121, 101, 98, 108, 105, 113, 97,
    120, 107, 122, 98, 118, 105, 111, 98, 110, 101, 98, 106, 111, 99, 118, 117, 122, 98, 102,
    114, 99, 100, 111, 98, 104, 114, 115, 106, 101, 112, 108, 117, 99, 111, 98, 105, 114, 115,
    111, 112, 110, 111, 99, 102, 98, 111, 115, 100, 112, 107, 119, 99, 114, 98, 100, 115, 120,
    112, 101, 109, 111, 103, 114, 99, 122, 98, 119, 115, 104, 112, 114, 109, 119, 103, 102, 99,
    104, 98, 122, 116, 111, 115, 122, 112, 102, 109, 120, 103, 113, 99, 121, 98, 113, 97, 111,
    116, 122, 115, 121, 112, 104, 109, 113, 103, 121, 99, 119, 98, 121, 97, 122, 116, 119, 115,
    101, 112, 121, 109, 101, 103, 119, 99, 117, 98, 101, 97, 113, 118, 101, 116, 106, 115, 114,
    112, 119, 110, 114, 109, 114, 108, 121, 107, 121, 103, 117, 99, 120, 98, 114, 97, 119,
];

/// The codes that the tables were built from, in lower case.
pub open spec fn is_country_code(first: u8, second: u8) -> bool {
    let f = first as char;
    let s = second as char;
    ||| f == 'a' && (s == 'd' || s == 'e' || s == 'f' || s == 'g' || s == 'i' || s == 'l' ||
        s == 'm' || s == 'o' || s == 'q' || s == 'r' || s == 's' || s == 't' || s == 'u' ||
        s == 'w' || s == 'x' || s == 'z')
    ||| f == 'b' && (s == 'a' || s == 'b' || s == 'd' || s == 'e' || s == 'f' || s == 'g' ||
        s == 'h' || s == 'i' || s == 'j' || s == 'l' || s == 'm' || s == 'n' || s == 'o' ||
        s == 'q' || s == 'r' || s == 's' || s == 't' || s == 'v' || s == 'w' || s == 'y' ||
        s == 'z')
    ||| f == 'c' && (s == 'a' || s == 'c' || s == 'd' || s == 'f' || s == 'g' || s == 'h' ||
        s == 'i' || s == 'k' || s == 'l' || s == 'm' || s == 'n' || s == 'o' || s == 'r' ||
        s == 'u' || s == 'v' || s == 'w' || s == 'x' || s == 'y' || s == 'z')
    ||| f == 'd' && (s == 'e' || s == 'j' || s == 'k' || s == 'm' || s == 'o' || s == 'z')
    ||| f == 'e' && (s == 'c' || s == 'e' || s == 'g' || s == 'r' || s == 's' || s == 't')
    ||| f == 'f' && (s == 'i' || s == 'j' || s == 'k' || s == 'm' || s == 'o' || s == 'r')
    ||| f == 'g' && (s == 'a' || s == 'b' || s == 'd' || s == 'e' || s == 'f' || s == 'g' ||
        s == 'h' || s == 'i' || s == 'l' || s == 'm' || s == 'n' || s == 'p' || s == 'q' ||
        s == 'r' || s == 's' || s == 't' || s == 'u' || s == 'w' || s == 'y')
    ||| f == 'h' && (s == 'k' || s == 'n' || s == 'r' || s == 't' || s == 'u')
    ||| f == 'i' && (s == 'd' || s == 'e' || s == 'l' || s == 'm' || s == 'n' || s == 'o' ||
        s == 'q' || s == 'r' || s == 's' || s == 't')
    ||| f == 'j' && (s == 'e' || s == 'm' || s == 'o' || s == 'p')
    ||| f == 'k' && (s == 'e' || s == 'g' || s == 'h' || s == 'i' || s == 'm' || s == 'n' ||
        s == 'p' || s == 'r' || s == 'w' || s == 'y' || s == 'z')
    ||| f == 'l' && (s == 'a' || s == 'b' || s == 'c' || s == 'i' || s == 'k' || s == 'r' ||
        s == 's' || s == 't' || s == 'u' || s == 'v' || s == 'y')
    ||| f == 'm' && (s == 'a' || s == 'c' || s == 'd' || s == 'e' || s == 'f' || s == 'g' ||
        s == 'h' || s == 'k' || s == 'l' || s == 'm' || s == 'n' || s == 'o' || s == 'p' ||
        s == 'q' || s == 'r' || s == 's' || s == 't' || s == 'u' || s == 'v' || s == 'w' ||
        s == 'x' || s == 'y' || s == 'z')
    ||| f == 'n' && (s == 'a' || s == 'c' || s == 'e' || s == 'f' || s == 'g' || s == 'i' ||
        s == 'l' || s == 'o' || s == 'p' || s == 'r' || s == 'u' || s == 'z')
    ||| f == 'o' && (s == 'm')
    ||| f == 'p' && (s == 'a' || s == 'e' || s == 'f' || s == 'g' || s == 'h' || s == 'k' ||
        s == 'l' || s == 'm' || s == 'n' || s == 'r' || s == 's' || s == 't' || s == 'w' ||
        s == 'y')
    ||| f == 'q' && (s == 'a')
    ||| f == 'r' && (s == 'e' || s == 'o' || s == 's' || s == 'u' || s == 'w')
    ||| f == 's' && (s == 'a' || s == 'b' || s == 'c' || s == 'd' || s == 'e' || s == 'g' ||
        s == 'h' || s == 'i' || s == 'j' || s == 'k' || s == 'l' || s == 'm' || s == 'n' ||
        s == 'o' || s == 'r' || s == 's' || s == 't' || s == 'v' || s == 'x' || s == 'y' ||
        s == 'z')
    ||| f == 't' && (s == 'c' || s == 'd' || s == 'f' || s == 'g' || s == 'h' || s == 'j' ||
        s == 'k' || s == 'l' || s == 'm' || s == 'n' || s == 'o' || s == 'r' || s == 't' ||
        s == 'v' || s == 'w' || s == 'z')
    ||| f == 'u' && (s == 'a' || s == 'g' || s == 'm' || s == 's' || s == 'y' || s == 'z')
    ||| f == 'v' && (s == 'a' || s == 'c' || s == 'e' || s == 'g' || s == 'i' || s == 'n' ||
        s == 'u')
    ||| f == 'w' && (s == 'f' || s == 's')
    ||| f == 'x' && (s == 'k')
    ||| f == 'y' && (s == 'e' || s == 't')
    ||| f == 'z' && (s == 'a' || s == 'm' || s == 'w' || s == 'z')
}

/// The entry of [`SLOTS`] that a code is displaced to, if its bucket has a
/// displacement and the displaced remainder lies inside the table.
pub open spec fn table_index(first: u8, second: u8) -> Option<int> {
    let value = first as int * 256 + second as int;
    let bucket = value / 178;
    if bucket >= 178 {
        None
    } else {
        let displacement = DISPLACEMENTS[bucket] as int;
        let index = value % 178 + displacement;
        if displacement == 255 || index < 0 || index >= 329 {
            None
        } else {
            Some(index)
        }
    }
}

/// The slot of a code: the entry it is displaced to, unless there is none or
/// the entry is unused.
pub open spec fn country_hash_spec(first: u8, second: u8) -> Option<usize> {
    match table_index(first, second) {
        Some(index) => if SLOTS[index] == 255 {
            None
        } else {
            Some(SLOTS[index] as usize)
        },
        None => None,
    }
}

/// The two letters that [`CODES`] holds at a slot.
pub open spec fn code2country_spec(slot: usize) -> (u8, u8) {
    (CODES[slot as int], CODES[slot + 1])
}

/// A code hashes to a slot under which the same code is found again.
pub open spec fn round_trips(first: u8, second: u8) -> bool {
    match country_hash_spec(first, second) {
        Some(slot) => slot + 1 < 320 && code2country_spec(slot) == (first, second),
        None => false,
    }
}

/// Two different codes are displaced to the same entry of the slot table.
pub open spec fn shares_entry(first: u8, second: u8, other_first: u8, other_second: u8) -> bool {
    &&& (first, second) != (other_first, other_second)
    &&& table_index(first, second) is Some
    &&& table_index(first, second) == table_index(other_first, other_second)
}

/// The slot of a two-letter code, `None` for a code without one. Every pair
/// of bytes is accepted.
pub fn country_hash(cn_code: &[u8; 2]) -> (slot: Option<usize>)
    ensures
        slot == country_hash_spec(cn_code[0], cn_code[1]),
        slot matches Some(s) ==> s + 1 < MAX_COUNTRY_HASH && s != ABSENT,
{
    let value: usize = (cn_code[0] as usize) * 256 + (cn_code[1] as usize);
    let bucket: usize = value / BUCKET_SIZE;
    if bucket >= 178 {
        return None;
    }
    let displacement: i32 = DISPLACEMENTS[bucket] as i32;
    if displacement == 255 {
        return None;
    }
    let index: i32 = (value % BUCKET_SIZE) as i32 + displacement;
    if index < 0 || index >= 329 {
        return None;
    }
    let code: u16 = SLOTS[index as usize];
    if code == ABSENT {
        return None;
    }
    proof {
        lemma_entry_holds_listed(index as int);
    }
    Some(code as usize)
}

/// The two letters of the code that a slot stands for.
pub fn code2country(code: usize) -> (letters: [u8; 2])
    requires
        code + 1 < MAX_COUNTRY_HASH,
    ensures
        (letters[0], letters[1]) == code2country_spec(code),
{
    [CODES[code], CODES[code + 1]]
}

/// An entry of the slot table is unused, or it holds the slot of a listed code
/// that is displaced to this very entry.
spec fn entry_holds_listed(k: int) -> bool {
    SLOTS[k] == 255 || {
        let slot = SLOTS[k] as usize;
        let (first, second) = code2country_spec(slot);
        &&& slot + 1 < 320
        &&& is_country_code(first, second)
        &&& table_index(first, second) == Some(k)
    }
}

/// The entries 0 to 46 of the slot table, one by one.
proof fn lemma_entries_from_0(k: int)
    requires
        0 <= k < 47,
    ensures
        entry_holds_listed(k),
{
    assert(
        k == 0 || k == 1 || k == 2 || k == 3 || k == 4 || k == 5 || k == 6 || k == 7 ||
        k == 8 || k == 9 || k == 10 || k == 11 || k == 12 || k == 13 || k == 14 ||
        k == 15 || k == 16 || k == 17 || k == 18 || k == 19 || k == 20 || k == 21 ||
        k == 22 || k == 23 || k == 24 || k == 25 || k == 26 || k == 27 || k == 28 ||
        k == 29 || k == 30 || k == 31 || k == 32 || k == 33 || k == 34 || k == 35 ||
        k == 36 || k == 37 || k == 38 || k == 39 || k == 40 || k == 41 || k == 42 ||
        k == 43 || k == 44 || k == 45 || k == 46
    );
}

/// The entries 47 to 93 of the slot table, one by one.
proof fn lemma_entries_from_47(k: int)
    requires
        47 <= k < 94,
    ensures
        entry_holds_listed(k),
{
    assert(
        k == 47 || k == 48 || k == 49 || k == 50 || k == 51 || k == 52 || k == 53 ||
        k == 54 || k == 55 || k == 56 || k == 57 || k == 58 || k == 59 || k == 60 ||
        k == 61 || k == 62 || k == 63 || k == 64 || k == 65 || k == 66 || k == 67 ||
        k == 68 || k == 69 || k == 70 || k == 71 || k == 72 || k == 73 || k == 74 ||
        k == 75 || k == 76 || k == 77 || k == 78 || k == 79 || k == 80 || k == 81 ||
        k == 82 || k == 83 || k == 84 || k == 85 || k == 86 || k == 87 || k == 88 ||
        k == 89 || k == 90 || k == 91 || k == 92 || k == 93
    );
}

/// The entries 94 to 140 of the slot table, one by one.
proof fn lemma_entries_from_94(k: int)
    requires
        94 <= k < 141,
    ensures
        entry_holds_listed(k),
{
    assert(
        k == 94 || k == 95 || k == 96 || k == 97 || k == 98 || k == 99 || k == 100 ||
        k == 101 || k == 102 || k == 103 || k == 104 || k == 105 || k == 106 || k == 107 ||
        k == 108 || k == 109 || k == 110 || k == 111 || k == 112 || k == 113 || k == 114 ||
        k == 115 || k == 116 || k == 117 || k == 118 || k == 119 || k == 120 || k == 121 ||
        k == 122 || k == 123 || k == 124 || k == 125 || k == 126 || k == 127 || k == 128 ||
        k == 129 || k == 130 || k == 131 || k == 132 || k == 133 || k == 134 || k == 135 ||
        k == 136 || k == 137 || k == 138 || k == 139 || k == 140
    );
}

/// The entries 141 to 187 of the slot table, one by one.
proof fn lemma_entries_from_141(k: int)
    requires
        141 <= k < 188,
    ensures
        entry_holds_listed(k),
{
    assert(
        k == 141 || k == 142 || k == 143 || k == 144 || k == 145 || k == 146 || k == 147 ||
        k == 148 || k == 149 || k == 150 || k == 151 || k == 152 || k == 153 || k == 154 ||
        k == 155 || k == 156 || k == 157 || k == 158 || k == 159 || k == 160 || k == 161 ||
        k == 162 || k == 163 || k == 164 || k == 165 || k == 166 || k == 167 || k == 168 ||
        k == 169 || k == 170 || k == 171 || k == 172 || k == 173 || k == 174 || k == 175 ||
        k == 176 || k == 177 || k == 178 || k == 179 || k == 180 || k == 181 || k == 182 ||
        k == 183 || k == 184 || k == 185 || k == 186 || k == 187
    );
}

/// The entries 188 to 234 of the slot table, one by one.
proof fn lemma_entries_from_188(k: int)
    requires
        188 <= k < 235,
    ensures
        entry_holds_listed(k),
{
    assert(
        k == 188 || k == 189 || k == 190 || k == 191 || k == 192 || k == 193 || k == 194 ||
        k == 195 || k == 196 || k == 197 || k == 198 || k == 199 || k == 200 || k == 201 ||
        k == 202 || k == 203 || k == 204 || k == 205 || k == 206 || k == 207 || k == 208 ||
        k == 209 || k == 210 || k == 211 || k == 212 || k == 213 || k == 214 || k == 215 ||
        k == 216 || k == 217 || k == 218 || k == 219 || k == 220 || k == 221 || k == 222 ||
        k == 223 || k == 224 || k == 225 || k == 226 || k == 227 || k == 228 || k == 229 ||
        k == 230 || k == 231 || k == 232 || k == 233 || k == 234
    );
}

/// The entries 235 to 281 of the slot table, one by one.
proof fn lemma_entries_from_235(k: int)
    requires
        235 <= k < 282,
    ensures
        entry_holds_listed(k),
{
    assert(
        k == 235 || k == 236 || k == 237 || k == 238 || k == 239 || k == 240 || k == 241 ||
        k == 242 || k == 243 || k == 244 || k == 245 || k == 246 || k == 247 || k == 248 ||
        k == 249 || k == 250 || k == 251 || k == 252 || k == 253 || k == 254 || k == 255 ||
        k == 256 || k == 257 || k == 258 || k == 259 || k == 260 || k == 261 || k == 262 ||
        k == 263 || k == 264 || k == 265 || k == 266 || k == 267 || k == 268 || k == 269 ||
        k == 270 || k == 271 || k == 272 || k == 273 || k == 274 || k == 275 || k == 276 ||
        k == 277 || k == 278 || k == 279 || k == 280 || k == 281
    );
}

/// The entries 282 to 328 of the slot table, one by one.
proof fn lemma_entries_from_282(k: int)
    requires
        282 <= k < 329,
    ensures
        entry_holds_listed(k),
{
    assert(
        k == 282 || k == 283 || k == 284 || k == 285 || k == 286 || k == 287 || k == 288 ||
        k == 289 || k == 290 || k == 291 || k == 292 || k == 293 || k == 294 || k == 295 ||
        k == 296 || k == 297 || k == 298 || k == 299 || k == 300 || k == 301 || k == 302 ||
        k == 303 || k == 304 || k == 305 || k == 306 || k == 307 || k == 308 || k == 309 ||
        k == 310 || k == 311 || k == 312 || k == 313 || k == 314 || k == 315 || k == 316 ||
        k == 317 || k == 318 || k == 319 || k == 320 || k == 321 || k == 322 || k == 323 ||
        k == 324 || k == 325 || k == 326 || k == 327 || k == 328
    );
}

/// The listed codes that start with `a` to `c`, one by one.
proof fn lemma_round_trip_a_to_c(first: u8, second: u8)
    requires
        is_country_code(first, second),
        'a' <= first as char <= 'c',
    ensures
        round_trips(first, second),
{
}

/// The listed codes that start with `d` to `h`, one by one.
proof fn lemma_round_trip_d_to_h(first: u8, second: u8)
    requires
        is_country_code(first, second),
        'd' <= first as char <= 'h',
    ensures
        round_trips(first, second),
{
}

/// The listed codes that start with `i` to `m`, one by one.
proof fn lemma_round_trip_i_to_m(first: u8, second: u8)
    requires
        is_country_code(first, second),
        'i' <= first as char <= 'm',
    ensures
        round_trips(first, second),
{
}

/// The listed codes that start with `n` to `s`, one by one.
proof fn lemma_round_trip_n_to_s(first: u8, second: u8)
    requires
        is_country_code(first, second),
        'n' <= first as char <= 's',
    ensures
        round_trips(first, second),
{
}

/// The listed codes that start with `t` to `z`, one by one.
proof fn lemma_round_trip_t_to_z(first: u8, second: u8)
    requires
        is_country_code(first, second),
        't' <= first as char <= 'z',
    ensures
        round_trips(first, second),
{
}

proof fn lemma_entry_holds_listed(k: int)
    requires
        0 <= k < 329,
    ensures
        entry_holds_listed(k),
{
    if k < 47 {
        lemma_entries_from_0(k);
    } else if k < 94 {
        lemma_entries_from_47(k);
    } else if k < 141 {
        lemma_entries_from_94(k);
    } else if k < 188 {
        lemma_entries_from_141(k);
    } else if k < 235 {
        lemma_entries_from_188(k);
    } else if k < 282 {
        lemma_entries_from_235(k);
    } else {
        lemma_entries_from_282(k);
    }
}

/// Every listed code has a slot, and the slot leads back to the code.
pub proof fn lemma_round_trip(first: u8, second: u8)
    requires
        is_country_code(first, second),
    ensures
        round_trips(first, second),
{
    let f = first as char;
    if f <= 'c' {
        lemma_round_trip_a_to_c(first, second);
    } else if f <= 'h' {
        lemma_round_trip_d_to_h(first, second);
    } else if f <= 'm' {
        lemma_round_trip_i_to_m(first, second);
    } else if f <= 's' {
        lemma_round_trip_n_to_s(first, second);
    } else {
        lemma_round_trip_t_to_z(first, second);
    }
}

/// A slot is never the sentinel, and two letters can be read at it.
pub proof fn lemma_slot_in_range(first: u8, second: u8)
    ensures
        country_hash_spec(first, second) matches Some(slot) ==> slot + 1 < MAX_COUNTRY_HASH && slot
            != ABSENT,
{
    if let Some(index) = table_index(first, second) {
        lemma_entry_holds_listed(index);
    }
}

/// Whatever has a slot has the slot of a listed code: the code itself, or a
/// listed code that is displaced to the same entry of the slot table.
pub proof fn lemma_slot_belongs_to_listed(first: u8, second: u8)
    requires
        country_hash_spec(first, second) is Some,
    ensures
        ({
            let (listed_first, listed_second) = code2country_spec(
                country_hash_spec(first, second).unwrap(),
            );
            &&& is_country_code(listed_first, listed_second)
            &&& table_index(listed_first, listed_second) == table_index(first, second)
            &&& country_hash_spec(listed_first, listed_second) == country_hash_spec(first, second)
        }),
{
    lemma_entry_holds_listed(table_index(first, second).unwrap());
}

/// A code outside the list has no slot, unless it is displaced to the entry of
/// a listed code.
pub proof fn lemma_unlisted_is_absent(first: u8, second: u8)
    requires
        !is_country_code(first, second),
        forall|other_first: u8, other_second: u8|
            is_country_code(other_first, other_second) ==> !shares_entry(
                first,
                second,
                other_first,
                other_second,
            ),
    ensures
        country_hash_spec(first, second) is None,
{
    if country_hash_spec(first, second) is Some {
        lemma_slot_belongs_to_listed(first, second);
        let (listed_first, listed_second) = code2country_spec(
            country_hash_spec(first, second).unwrap(),
        );
        assert(shares_entry(first, second, listed_first, listed_second));
    }
}

/// The listed codes are exactly the codes that round-trip: a code outside the
/// list may have the slot of another code, never one that leads back to it.
pub proof fn lemma_listed_iff_round_trips(first: u8, second: u8)
    ensures
        is_country_code(first, second) <==> round_trips(first, second),
{
    if is_country_code(first, second) {
        lemma_round_trip(first, second);
    }
    if round_trips(first, second) {
        lemma_slot_belongs_to_listed(first, second);
    }
}

} // verus!
