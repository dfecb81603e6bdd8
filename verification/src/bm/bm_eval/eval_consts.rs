use vstd::prelude::*;

verus! {

/// A score for the middlegame and one for the endgame, blended by game phase.
#[derive(Debug, Copy, Clone, Default, PartialEq, Eq, Structural)]
pub struct TaperedEval(pub i16, pub i16);

pub const PAWN_PHASE: u32 = 0;
pub const KNIGHT_PHASE: u32 = 1;
pub const BISHOP_PHASE: u32 = 1;
pub const ROOK_PHASE: u32 = 2;
pub const QUEEN_PHASE: u32 = 4;
/// The phase of the starting position: `PAWN_PHASE * 16 + KNIGHT_PHASE * 4 +
/// BISHOP_PHASE * 4 + ROOK_PHASE * 4 + QUEEN_PHASE * 2`.
pub const TOTAL_PHASE: u32 = 24;

/// Division rounding toward zero, as Rust's integer `/` does.
pub open spec fn div_toward_zero(a: int, b: int) -> int {
    let q = (if a < 0 { -a } else { a }) / (if b < 0 { -b } else { b });
    if (a < 0) != (b < 0) {
        -q
    } else {
        q
    }
}

/// The blend of a middlegame and an endgame score at `phase` (24 is the full middlegame),
/// before it is cut to 16 bits.
pub open spec fn spec_blend(mg: int, eg: int, phase: int) -> int {
    div_toward_zero(mg * phase + eg * (24 - phase), 24)
}

impl TaperedEval {
    /// The blended score at `phase`, truncated to `i16` as the `as` cast does.
    pub fn convert(&self, phase: i16) -> (r: i16)
        ensures
            r == spec_blend(self.0 as int, self.1 as int, phase as int) as i16,
    {
        let phase = phase as i64;
        let mg = self.0 as i64;
        let eg = self.1 as i64;
        assert(-32768 * 32768 <= mg * phase <= 32768 * 32768) by (nonlinear_arith)
            requires
                -32768 <= mg <= 32767,
                -32768 <= phase <= 32767,
        ;
        assert(-32768 * 32800 <= eg * (24 - phase) <= 32768 * 32800) by (nonlinear_arith)
            requires
                -32768 <= eg <= 32767,
                -32768 <= phase <= 32767,
        ;
        let v = (mg * phase + eg * (24 - phase)) / 24;
        #[verifier::truncate]
        (v as i16)
    }

    pub fn plus(self, rhs: TaperedEval) -> (r: TaperedEval)
        requires
            i16::MIN <= self.0 + rhs.0 <= i16::MAX,
            i16::MIN <= self.1 + rhs.1 <= i16::MAX,
        ensures
            r.0 == self.0 + rhs.0,
            r.1 == self.1 + rhs.1,
    {
        TaperedEval(self.0 + rhs.0, self.1 + rhs.1)
    }

    pub fn minus(self, rhs: TaperedEval) -> (r: TaperedEval)
        requires
            i16::MIN <= self.0 - rhs.0 <= i16::MAX,
            i16::MIN <= self.1 - rhs.1 <= i16::MAX,
        ensures
            r.0 == self.0 - rhs.0,
            r.1 == self.1 - rhs.1,
    {
        TaperedEval(self.0 - rhs.0, self.1 - rhs.1)
    }

    pub fn scaled(self, k: i16) -> (r: TaperedEval)
        requires
            i16::MIN <= self.0 * k <= i16::MAX,
            i16::MIN <= self.1 * k <= i16::MAX,
        ensures
            r.0 == self.0 * k,
            r.1 == self.1 * k,
    {
        TaperedEval(self.0 * k, self.1 * k)
    }

    pub fn from_pair(pair: [i16; 2]) -> (r: TaperedEval)
        ensures
            r.0 == pair[0],
            r.1 == pair[1],
    {
        TaperedEval(pair[0], pair[1])
    }
}

/// A square table with the material value of its piece added to every entry.
pub fn add_piece(table: &[[i16; 2]; 64], piece_value: [i16; 2]) -> (r: Vec<TaperedEval>)
    requires
        forall|i: int, j: int|
            0 <= i < 64 && 0 <= j < 2 ==> i16::MIN <= #[trigger] table[i][j] + piece_value[j] <= i16::MAX,
    ensures
        r.len() == 64,
        forall|i: int| 0 <= i < 64 ==> #[trigger] r[i].0 == table[i][0] + piece_value[0],
        forall|i: int| 0 <= i < 64 ==> #[trigger] r[i].1 == table[i][1] + piece_value[1],
{
    let mut combined: Vec<TaperedEval> = Vec::new();
    let mut i: usize = 0;
    while i < 64
        invariant
            i <= 64,
            combined.len() == i,
            forall|i: int, j: int|
                0 <= i < 64 && 0 <= j < 2 ==> i16::MIN <= #[trigger] table[i][j] + piece_value[j] <= i16::MAX,
            forall|k: int| 0 <= k < i ==> #[trigger] combined[k].0 == table[k][0] + piece_value[0],
            forall|k: int| 0 <= k < i ==> #[trigger] combined[k].1 == table[k][1] + piece_value[1],
        decreases 64 - i,
    {
        let entry = table[i];
        assert(i16::MIN <= table[i as int][0] + piece_value[0] <= i16::MAX);
        assert(i16::MIN <= table[i as int][1] + piece_value[1] <= i16::MAX);
        combined.push(TaperedEval(entry[0] + piece_value[0], entry[1] + piece_value[1]));
        i += 1;
    }
    combined
}

/// Bonus for the side to move.
pub const TEMPO: [i16; 2] = [12, 16];

/// Per doubled pawn.
pub const DOUBLED: [i16; 2] = [-8, -19];

/// Per isolated pawn.
pub const ISOLATED: [i16; 2] = [-9, -12];

/// Per pawn defended by a pawn.
pub const CHAINED: [i16; 2] = [16, 13];

/// Per enemy piece attacked by a pawn.
pub const THREAT: [i16; 2] = [34, 58];

/// For owning two bishops or more.
pub const BISHOP_PAIR: [i16; 2] = [21, 88];

/// Per pawn standing right beside a friendly pawn on the square below its own number.
pub const PHALANX: [i16; 2] = [5, 11];

/// Passed pawn bonus by rank, from the pawn's own side.
pub const PASSED_TABLE: [[i16; 2]; 8] = [
    [0, 0], [-7, 18], [-14, 21], [-7, 49],
    [20, 74], [39, 141], [91, 187], [0, 0],
];

/// Knight mobility by number of squares.
pub const KNIGHT_MOBILITY: [[i16; 2]; 9] = [
    [-12, -83], [6, -5], [15, 44], [21, 62],
    [32, 78], [40, 95], [43, 95], [51, 87],
    [63, 62],
];

/// Bishop mobility by number of squares.
pub const BISHOP_MOBILITY: [[i16; 2]; 14] = [
    [-21, -104], [-6, -55], [0, -6], [0, 14],
    [10, 37], [18, 51], [19, 66], [16, 71],
    [19, 78], [25, 77], [28, 73], [47, 59],
    [57, 82], [79, 42],
];

/// Rook mobility by number of squares.
pub const ROOK_MOBILITY: [[i16; 2]; 15] = [
    [-77, -79], [-8, -23], [4, 22], [5, 39],
    [5, 55], [8, 63], [18, 74], [22, 81],
    [33, 82], [39, 88], [43, 95], [48, 99],
    [55, 103], [76, 87], [135, 58],
];

/// Queen mobility by number of squares.
pub const QUEEN_MOBILITY: [[i16; 2]; 28] = [
    [-1, 0], [-16, -7], [-16, -22], [7, -48],
    [15, -50], [21, -6], [22, 16], [22, 41],
    [29, 59], [33, 74], [38, 87], [37, 87],
    [38, 93], [41, 98], [42, 102], [42, 106],
    [47, 108], [47, 103], [47, 111], [50, 108],
    [58, 99], [76, 84], [60, 88], [70, 84],
    [49, 69], [35, 54], [14, 25], [7, 13],
];

/// King danger by `attackers * 4 + pieces in the king ring` (each capped at 3).
pub const ATTACKERS: [[i16; 2]; 16] = [
    [-82, 12], [-55, 9], [-55, 9], [-55, 9],
    [-79, 4], [-65, 0], [24, -16], [24, -16],
    [-69, 7], [-23, -1], [109, -36], [32, -7],
    [-45, 21], [38, -15], [137, -30], [78, 52],
];

/// Per knight that attacks a square a knight on the enemy king's square would attack.
pub const KNIGHT_ATTACK_CNT: [i16; 2] = [6, 9];

/// Per bishop attacking a square on the enemy king's diagonals.
pub const BISHOP_ATTACK_CNT: [i16; 2] = [4, 18];

/// Per rook attacking a square on the enemy king's lines.
pub const ROOK_ATTACK_CNT: [i16; 2] = [26, -1];

/// Per queen attacking a square on the enemy king's lines or diagonals.
pub const QUEEN_ATTACK_CNT: [i16; 2] = [2, 38];

/// Material value of a pawn.
pub const PAWN_CNT: [i16; 2] = [81, 150];

/// Material value of a knight.
pub const KNIGHT_CNT: [i16; 2] = [261, 435];

/// Material value of a bishop.
pub const BISHOP_CNT: [i16; 2] = [289, 486];

/// Material value of a rook.
pub const ROOK_CNT: [i16; 2] = [405, 843];

/// Material value of a queen.
pub const QUEEN_CNT: [i16; 2] = [915, 1577];

/// Pawn square table, by `rank * 8 + file`.
pub const PAWNS: [[i16; 2]; 64] = [
    [0, 0], [0, 0], [0, 0], [0, 0],
    [0, 0], [0, 0], [0, 0], [0, 0],
    [-22, 3], [-26, 1], [-24, 0], [-11, -1],
    [-19, 11], [15, 6], [29, -13], [-1, -28],
    [-25, -6], [-27, -8], [-19, -8], [-20, -10],
    [-4, -2], [-10, -4], [7, -19], [-6, -21],
    [-20, 5], [-23, 4], [-14, -17], [-6, -19],
    [9, -17], [2, -11], [-1, -11], [-8, -15],
    [-17, 33], [-14, 20], [-10, 6], [5, -27],
    [17, -18], [26, -12], [7, 4], [-1, 0],
    [-17, 68], [14, 51], [18, 25], [22, -14],
    [35, -30], [91, -3], [39, 12], [0, 30],
    [71, 59], [53, 54], [62, 21], [61, -18],
    [49, -27], [-6, -8], [-114, 45], [-84, 61],
    [0, 0], [0, 0], [0, 0], [0, 0],
    [0, 0], [0, 0], [0, 0], [0, 0],
];

/// Knight square table, by `rank * 8 + file`.
pub const KNIGHTS: [[i16; 2]; 64] = [
    [-49, -41], [-4, -33], [-37, -17], [-2, 6],
    [4, 2], [-9, -5], [-11, -17], [-62, -39],
    [-25, -18], [-19, 4], [-11, -12], [1, 1],
    [7, 7], [3, -13], [-7, 8], [-3, -3],
    [-13, -36], [-1, -7], [-2, 5], [15, 30],
    [12, 23], [9, -2], [8, -2], [1, -19],
    [0, 1], [13, 14], [18, 45], [14, 51],
    [16, 50], [17, 51], [42, 25], [12, 19],
    [13, 0], [25, 18], [35, 46], [40, 59],
    [30, 64], [46, 55], [27, 38], [41, 19],
    [-27, -13], [23, 8], [30, 37], [44, 38],
    [62, 35], [54, 52], [7, 18], [-14, 3],
    [-4, -14], [2, -7], [38, -8], [61, 20],
    [46, 20], [43, -21], [-26, 1], [12, -9],
    [-133, -76], [-14, -17], [-54, 15], [-2, 5],
    [-5, 3], [-32, 14], [-2, -1], [-42, -46],
];

/// Bishop square table, by `rank * 8 + file`.
pub const BISHOPS: [[i16; 2]; 64] = [
    [21, -14], [19, -7], [8, -15], [-8, -1],
    [-6, -3], [8, 2], [16, -14], [29, -11],
    [16, -4], [21, -19], [22, -11], [7, 4],
    [15, -1], [22, -11], [36, -10], [29, -28],
    [10, -4], [18, 5], [14, 8], [16, 9],
    [21, 13], [24, 8], [24, -3], [19, -1],
    [-4, -4], [14, 1], [17, 17], [36, 19],
    [28, 16], [5, 18], [6, 7], [11, -14],
    [0, -3], [27, 12], [21, 13], [58, 22],
    [39, 28], [37, 11], [21, 23], [-7, 14],
    [13, 2], [30, 16], [34, 15], [26, 10],
    [46, 12], [37, 31], [12, 26], [-19, 19],
    [-43, 14], [13, 10], [-7, 13], [-34, 20],
    [-39, 23], [-26, 22], [-48, 30], [-48, 20],
    [-43, 18], [-33, 18], [-59, 21], [-67, 26],
    [-53, 14], [-78, 6], [-4, 13], [-27, 15],
];

/// Rook square table, by `rank * 8 + file`.
pub const ROOKS: [[i16; 2]; 64] = [
    [-18, -20], [-4, -11], [1, -14], [9, -18],
    [2, -20], [1, -7], [4, -13], [-10, -34],
    [-49, -17], [-19, -24], [-12, -12], [-6, -15],
    [-12, -17], [-1, -27], [5, -28], [-44, -18],
    [-35, -6], [-21, -1], [-28, 4], [-13, -5],
    [-21, -3], [-16, -2], [5, -3], [-17, -13],
    [-23, 8], [-23, 26], [-20, 26], [-13, 21],
    [-13, 15], [-11, 20], [7, 16], [-12, 8],
    [-2, 22], [13, 23], [12, 28], [43, 18],
    [20, 21], [31, 17], [22, 12], [17, 18],
    [-7, 35], [47, 17], [24, 33], [45, 15],
    [43, 22], [31, 31], [69, 6], [30, 21],
    [9, 41], [2, 47], [22, 47], [41, 45],
    [2, 62], [43, 23], [1, 36], [52, 22],
    [36, 33], [31, 42], [9, 55], [9, 48],
    [-7, 53], [12, 54], [44, 43], [62, 39],
];

/// Queen square table, by `rank * 8 + file`.
pub const QUEENS: [[i16; 2]; 64] = [
    [14, -56], [19, -74], [22, -74], [35, -44],
    [33, -76], [-3, -57], [-7, -52], [8, -23],
    [21, -56], [20, -35], [25, -66], [16, -31],
    [19, -41], [40, -97], [47, -113], [24, -41],
    [12, -48], [18, -23], [16, 11], [8, -15],
    [13, -4], [10, 18], [32, -20], [32, -28],
    [11, -31], [16, 10], [6, 10], [-6, 66],
    [-3, 60], [13, 59], [16, 40], [28, 61],
    [4, -15], [-2, 34], [-9, 28], [-4, 81],
    [0, 102], [11, 115], [24, 109], [35, 80],
    [-9, 10], [-4, 16], [-15, 46], [4, 65],
    [9, 106], [42, 124], [59, 102], [24, 114],
    [-3, 23], [-56, 71], [-12, 61], [-25, 94],
    [-45, 154], [31, 99], [-33, 103], [33, 80],
    [0, 29], [15, 55], [16, 61], [27, 69],
    [38, 82], [73, 86], [58, 88], [77, 78],
];

/// King square table, by `rank * 8 + file`.
pub const KINGS: [[i16; 2]; 64] = [
    [-33, -73], [19, -43], [-27, -20], [-119, -24],
    [-49, -55], [-103, -14], [-10, -48], [-7, -109],
    [-18, -19], [-28, -5], [-42, 5], [-104, 20],
    [-62, 10], [-69, 13], [-22, -15], [-10, -39],
    [-30, -20], [-16, 2], [-2, 13], [-21, 32],
    [3, 24], [-10, 15], [-8, -7], [-50, -17],
    [1, -23], [30, 18], [59, 29], [37, 48],
    [54, 36], [38, 29], [49, 4], [-28, -21],
    [2, -2], [33, 37], [53, 41], [31, 46],
    [48, 44], [57, 40], [51, 29], [-26, -3],
    [3, 3], [38, 47], [47, 40], [35, 32],
    [36, 23], [55, 51], [35, 49], [1, 1],
    [-7, -44], [19, 32], [23, 26], [11, 7],
    [15, 10], [17, 17], [11, 42], [-4, -27],
    [-9, -74], [1, -48], [3, -24], [3, -14],
    [2, -23], [-1, -18], [-1, -26], [-5, -61],
];

} // verus!
