//! T-Deck input: the keyboard controller's raw 5×7 key matrix and the
//! trackball's five lines, turned into logical key events.
//!
//! The board code reads the hardware (I²C, GPIO, clocks); what a reading
//! means is decided here.

use vstd::prelude::*;

use crate::input::{KeyCode, KeyEvent, KeyState};

verus! {

/// Number of matrix columns, each byte a 7-row bitmask.
pub const MATRIX_COLS: usize = 5;

/// Number of matrix rows.
pub const MATRIX_ROWS: usize = 7;

/// Base (unshifted) keycaps, by row then column; `0` = not printable.
pub open spec fn base_table() -> Seq<Seq<u8>> {
    seq![
        seq![0x71u8, 0x65, 0x72, 0x75, 0x6f],
        seq![0x77u8, 0x73, 0x67, 0x68, 0x6c],
        seq![0u8, 0x64, 0x74, 0x79, 0x69],
        seq![0x61u8, 0x70, 0, 0, 0],
        seq![0u8, 0x78, 0x76, 0x62, 0x24],
        seq![0x20u8, 0x7a, 0x63, 0x6e, 0x6d],
        seq![0u8, 0, 0x66, 0x6a, 0x6b],
    ]
}

/// Symbol-layer keycaps, by row then column; `0` = not printable.
pub open spec fn sym_table() -> Seq<Seq<u8>> {
    seq![
        seq![0x23u8, 0x32, 0x33, 0x5f, 0x2b],
        seq![0x31u8, 0x34, 0x2f, 0x3a, 0x22],
        seq![0u8, 0x35, 0x28, 0x29, 0x2d],
        seq![0x2au8, 0x40, 0, 0, 0],
        seq![0u8, 0x38, 0x3f, 0x21, 0],
        seq![0u8, 0x37, 0x39, 0x2c, 0x2e],
        seq![0x30u8, 0, 0x36, 0x3b, 0x27],
    ]
}

/// The base keycap at `(col, row)`.
fn base_cap(col: usize, row: usize) -> (r: u8)
    requires
        col < MATRIX_COLS,
        row < MATRIX_ROWS,
    ensures
        r == base_table()[row as int][col as int],
{
    let t: [[u8; 5]; 7] = [
        [0x71, 0x65, 0x72, 0x75, 0x6f],
        [0x77, 0x73, 0x67, 0x68, 0x6c],
        [0, 0x64, 0x74, 0x79, 0x69],
        [0x61, 0x70, 0, 0, 0],
        [0, 0x78, 0x76, 0x62, 0x24],
        [0x20, 0x7a, 0x63, 0x6e, 0x6d],
        [0, 0, 0x66, 0x6a, 0x6b],
    ];
    t[row][col]
}


/// The symbol-layer keycap at `(col, row)`.
fn sym_cap(col: usize, row: usize) -> (r: u8)
    requires
        col < MATRIX_COLS,
        row < MATRIX_ROWS,
    ensures
        r == sym_table()[row as int][col as int],
{
    let t: [[u8; 5]; 7] = [
        [0x23, 0x32, 0x33, 0x5f, 0x2b],
        [0x31, 0x34, 0x2f, 0x3a, 0x22],
        [0, 0x35, 0x28, 0x29, 0x2d],
        [0x2a, 0x40, 0, 0, 0],
        [0, 0x38, 0x3f, 0x21, 0],
        [0, 0x37, 0x39, 0x2c, 0x2e],
        [0x30, 0, 0x36, 0x3b, 0x27],
    ];
    t[row][col]
}

/// Whether key `(col, row)` is down in `matrix`.
pub open spec fn matrix_bit(matrix: [u8; 5], col: int, row: int) -> bool {
    (matrix[col] >> (row as u8)) & 1 == 1
}

/// Read one bit of the raw matrix (column bitmask, row bit).
pub fn bit(matrix: &[u8; 5], col: usize, row: usize) -> (r: bool)
    requires
        col < MATRIX_COLS,
        row < 8,
    ensures
        r == matrix_bit(*matrix, col as int, row as int),
{
    (matrix[col] >> (row as u8)) & 1 == 1
}

/// Whether `(col, row)` is a key that never produces output by itself:
/// Alt, Symbol, Mic and the two Shift keys.
pub open spec fn is_modifier_position(col: usize, row: usize) -> bool {
    ||| (col == 0 && row == 4)
    ||| (col == 0 && row == 2)
    ||| (col == 0 && row == 6)
    ||| (col == 1 && row == 6)
    ||| (col == 2 && row == 3)
}

/// Whether `(col, row)` is Enter, Backspace or Space.
pub open spec fn is_special_position(col: usize, row: usize) -> bool {
    ||| (col == 3 && row == 3)
    ||| (col == 4 && row == 3)
    ||| (col == 0 && row == 5)
}

/// The ASCII uppercase of a lowercase letter; other bytes unchanged.
pub open spec fn ascii_upper(c: u8) -> u8 {
    if 0x61 <= c <= 0x7a {
        (c - 32) as u8
    } else {
        c
    }
}

/// The key a pressed matrix position gives with the Symbol and Shift
/// layers held as given: Enter, Backspace and Space by position, nothing
/// for modifiers, else the symbol keycap when Symbol is held and the key
/// has one, else the base keycap (uppercased under Shift).
pub open spec fn key_for_spec(col: usize, row: usize, sym_down: bool, shift_down: bool) -> Option<
    KeyCode,
> {
    if col == 3 && row == 3 {
        Some(KeyCode::Enter)
    } else if col == 4 && row == 3 {
        Some(KeyCode::Backspace)
    } else if col == 0 && row == 5 {
        Some(KeyCode::Space)
    } else if is_modifier_position(col, row) {
        None
    } else {
        let base = base_table()[row as int][col as int];
        let sym = sym_table()[row as int][col as int];
        let c = if sym_down && sym != 0 {
            sym
        } else {
            base
        };
        if c == 0 {
            None
        } else if shift_down {
            Some(KeyCode::Char(ascii_upper(c) as char))
        } else {
            Some(KeyCode::Char(c as char))
        }
    }
}

/// Map a pressed matrix position (plus the held Symbol/Shift layers) to a key.
pub fn key_for(col: usize, row: usize, sym_down: bool, shift_down: bool) -> (r: Option<KeyCode>)
    requires
        is_special_position(col, row) || is_modifier_position(col, row) || (col < MATRIX_COLS
            && row < MATRIX_ROWS),
    ensures
        r == key_for_spec(col, row, sym_down, shift_down),
{
    if col == 3 && row == 3 {
        return Some(KeyCode::Enter);
    }
    if col == 4 && row == 3 {
        return Some(KeyCode::Backspace);
    }
    if col == 0 && row == 5 {
        return Some(KeyCode::Space);
    }
    if (col == 0 && row == 4) || (col == 0 && row == 2) || (col == 0 && row == 6) || (col == 1 && row
        == 6) || (col == 2 && row == 3) {
        return None;
    }
    let base = base_cap(col, row);
    let sym = sym_cap(col, row);
    let mut c = if sym_down {
        sym
    } else {
        base
    };
    if c == 0 {
        c = base;
    }
    if c == 0 {
        return None;
    }
    if shift_down && 0x61 <= c && c <= 0x7a {
        c = c - 32;
    }
    Some(KeyCode::Char(c as char))
}

/// Edge-detection state of the keyboard matrix between polls.
#[derive(Debug, Clone, Copy)]
pub struct MatrixScanner {
    /// Last raw matrix (column bitmasks).
    pub prev: [u8; 5],
    /// Whether a first matrix has been seen.
    pub initialized: bool,
    /// Held modifier state, tracked between polls.
    pub alt_down: bool,
    pub sym_down: bool,
    pub shift_down: bool,
}

/// Whether Alt is down in `m`.
pub open spec fn alt_in(m: [u8; 5]) -> bool {
    matrix_bit(m, 0, 4)
}

/// Whether Symbol is down in `m`.
pub open spec fn sym_in(m: [u8; 5]) -> bool {
    matrix_bit(m, 0, 2)
}

/// Whether either Shift is down in `m`.
pub open spec fn shift_in(m: [u8; 5]) -> bool {
    matrix_bit(m, 1, 6) || matrix_bit(m, 2, 3)
}

/// The keys pressed since `prev` among the first `n` matrix positions,
/// taken row by row (position `p` is column `p % 5` of row `p / 5`).
pub open spec fn pressed_keys(m: [u8; 5], prev: [u8; 5], sym: bool, shift: bool, n: nat) -> Seq<
    KeyCode,
>
    decreases n,
{
    if n == 0 {
        Seq::empty()
    } else {
        let p = (n - 1) as nat;
        let col = (p % 5) as usize;
        let row = (p / 5) as usize;
        let rest = pressed_keys(m, prev, sym, shift, p);
        if matrix_bit(m, col as int, row as int) && !matrix_bit(prev, col as int, row as int)
            && key_for_spec(col, row, sym, shift) is Some {
            rest.push(key_for_spec(col, row, sym, shift)->Some_0)
        } else {
            rest
        }
    }
}

/// Key presses of `keys`, as events.
pub open spec fn presses(keys: Seq<KeyCode>) -> Seq<KeyEvent> {
    keys.map_values(|k: KeyCode| KeyEvent { code: k, state: KeyState::Pressed })
}

/// Everything a new matrix `m` reports: an Alt press or release first,
/// then the keys that went down, row by row.
pub open spec fn matrix_events(s: MatrixScanner, m: [u8; 5]) -> Seq<KeyEvent> {
    let alt = alt_in(m);
    let alt_edge = if alt != s.alt_down {
        seq![
            KeyEvent {
                code: KeyCode::Alt,
                state: if alt {
                    KeyState::Pressed
                } else {
                    KeyState::Released
                },
            },
        ]
    } else {
        Seq::empty()
    };
    alt_edge + presses(pressed_keys(m, s.prev, sym_in(m), shift_in(m), 35))
}

/// The scanner after seeing `m`.
pub open spec fn after_matrix(m: [u8; 5]) -> MatrixScanner {
    MatrixScanner {
        prev: m,
        initialized: true,
        alt_down: alt_in(m),
        sym_down: sym_in(m),
        shift_down: shift_in(m),
    }
}

/// The first `cap` elements of `s` (all of them when fewer).
pub open spec fn at_most<T>(s: Seq<T>, cap: usize) -> Seq<T> {
    if cap < s.len() {
        s.take(cap as int)
    } else {
        s
    }
}

impl MatrixScanner {
    pub fn new() -> (r: Self)
        ensures
            r.prev@ == seq![0u8, 0, 0, 0, 0],
            !r.initialized,
            !r.alt_down,
            !r.sym_down,
            !r.shift_down,
    {
        MatrixScanner {
            prev: [0, 0, 0, 0, 0],
            initialized: false,
            alt_down: false,
            sym_down: false,
            shift_down: false,
        }
    }

    /// Take a newly read matrix and return at most `capacity` key events.
    /// The first matrix only seeds the edge detectors.
    pub fn scan(&mut self, matrix: [u8; 5], capacity: usize) -> (r: Vec<KeyEvent>)
        ensures
            *final(self) == after_matrix(matrix),
            r@ == if old(self).initialized {
                at_most(matrix_events(*old(self), matrix), capacity)
            } else {
                Seq::empty()
            },
    {
        let alt_down = bit(&matrix, 0, 4);
        let sym_down = bit(&matrix, 0, 2);
        let shift_down = bit(&matrix, 1, 6) || bit(&matrix, 2, 3);
        if !self.initialized {
            *self = MatrixScanner {
                prev: matrix,
                initialized: true,
                alt_down,
                sym_down,
                shift_down,
            };
            return Vec::new();
        }
        let mut all: Vec<KeyEvent> = Vec::new();
        if alt_down != self.alt_down {
            let state = if alt_down {
                KeyState::Pressed
            } else {
                KeyState::Released
            };
            all.push(KeyEvent { code: KeyCode::Alt, state });
        }
        let ghost alt_edge = all@;
        let prev = self.prev;
        let mut row: usize = 0;
        while row < MATRIX_ROWS
            invariant
                row <= MATRIX_ROWS,
                all@ == alt_edge + presses(
                    pressed_keys(matrix, prev, sym_down, shift_down, (row * 5) as nat),
                ),
            decreases MATRIX_ROWS - row,
        {
            let mut col: usize = 0;
            while col < MATRIX_COLS
                invariant
                    row < MATRIX_ROWS,
                    col <= MATRIX_COLS,
                    all@ == alt_edge + presses(
                        pressed_keys(matrix, prev, sym_down, shift_down, (row * 5 + col) as nat),
                    ),
                decreases MATRIX_COLS - col,
            {
                let ghost p = (row * 5 + col) as nat;
                assert(p % 5 == col && p / 5 == row);
                let ghost before = pressed_keys(matrix, prev, sym_down, shift_down, p);
                if bit(&matrix, col, row) && !bit(&prev, col, row) {
                    if let Some(code) = key_for(col, row, sym_down, shift_down) {
                        all.push(KeyEvent { code, state: KeyState::Pressed });
                        assert(presses(before.push(code)) =~= presses(before).push(
                            KeyEvent { code, state: KeyState::Pressed },
                        ));
                    }
                }
                col += 1;
            }
            row += 1;
        }
        let mut out: Vec<KeyEvent> = Vec::new();
        let mut i: usize = 0;
        while i < all.len() && i < capacity
            invariant
                i <= all.len(),
                i <= capacity,
                out@ == all@.take(i as int),
            decreases all.len() - i,
        {
            out.push(all[i]);
            i += 1;
            assert(out@ =~= all@.take(i as int));
        }
        assert(all@.take(all.len() as int) =~= all@);
        assert(alt_edge =~= if alt_down != old(self).alt_down {
            seq![
                KeyEvent {
                    code: KeyCode::Alt,
                    state: if alt_down {
                        KeyState::Pressed
                    } else {
                        KeyState::Released
                    },
                },
            ]
        } else {
            Seq::empty()
        });
        assert(all@ == matrix_events(*old(self), matrix));
        *self = MatrixScanner {
            prev: matrix,
            initialized: true,
            alt_down,
            sym_down,
            shift_down,
        };
        out
    }
}

/// The five trackball lines, `true` while pulled low (moved or clicked).
#[derive(Debug, Clone, Copy, PartialEq, Eq, Structural)]
pub struct TrackballLines {
    pub up: bool,
    pub down: bool,
    pub left: bool,
    pub right: bool,
    pub click: bool,
}

/// Falling-edge detection of the trackball lines between polls.
#[derive(Debug, Clone, Copy, PartialEq, Eq, Structural)]
pub struct TrackballState {
    /// The lines at the last poll.
    pub prev: TrackballLines,
}

/// The key a line gives when it falls, if it fell.
pub open spec fn edge_key(now: bool, before: bool, k: KeyCode) -> Seq<KeyCode> {
    if now && !before {
        seq![k]
    } else {
        Seq::empty()
    }
}

/// The keys the trackball gives between `prev` and `now`: Up, Down, Right,
/// then Esc for left, then Enter for a click.
pub open spec fn trackball_keys(prev: TrackballLines, now: TrackballLines) -> Seq<KeyCode> {
    edge_key(now.up, prev.up, KeyCode::Up) + edge_key(now.down, prev.down, KeyCode::Down)
        + edge_key(now.right, prev.right, KeyCode::Right) + edge_key(
        now.left,
        prev.left,
        KeyCode::Esc,
    ) + edge_key(now.click, prev.click, KeyCode::Enter)
}

/// Appends the press of `k` when its line fell and room is left.
fn push_edge(
    out: &mut Vec<KeyEvent>,
    now: bool,
    before: bool,
    k: KeyCode,
    capacity: usize,
    Ghost(done): Ghost<Seq<KeyCode>>,
)
    requires
        old(out)@ == at_most(presses(done), capacity),
    ensures
        final(out)@ == at_most(presses(done + edge_key(now, before, k)), capacity),
{
    let ghost ev = KeyEvent { code: k, state: KeyState::Pressed };
    if now && !before {
        assert(done + edge_key(now, before, k) =~= done.push(k));
        assert(presses(done.push(k)) =~= presses(done).push(ev));
        if out.len() < capacity {
            out.push(KeyEvent { code: k, state: KeyState::Pressed });
            assert(out@ =~= at_most(presses(done).push(ev), capacity));
        } else {
            assert(presses(done).push(ev).take(capacity as int) =~= presses(done).take(
                capacity as int,
            ));
            assert(presses(done).take(presses(done).len() as int) =~= presses(done));
        }
    } else {
        assert(done + edge_key(now, before, k) =~= done);
    }
}

impl TrackballState {
    /// Every line taken as already low, so a line held at start-up gives
    /// no press.
    pub fn new() -> (r: Self)
        ensures
            r.prev == (TrackballLines { up: true, down: true, left: true, right: true, click: true }),
    {
        TrackballState {
            prev: TrackballLines { up: true, down: true, left: true, right: true, click: true },
        }
    }

    /// Take the lines read now; when the debounce time since the last
    /// accepted event has passed, return at most `capacity` presses for the
    /// lines that fell. The caller restarts the debounce time when the
    /// result is not empty.
    pub fn poll(&mut self, now: TrackballLines, debounced: bool, capacity: usize) -> (r: Vec<
        KeyEvent,
    >)
        ensures
            final(self).prev == now,
            r@ == if debounced {
                at_most(presses(trackball_keys(old(self).prev, now)), capacity)
            } else {
                Seq::empty()
            },
    {
        let prev = self.prev;
        self.prev = now;
        if !debounced {
            return Vec::new();
        }
        let mut out: Vec<KeyEvent> = Vec::new();
        let ghost d0: Seq<KeyCode> = Seq::empty();
        assert(out@ =~= at_most(presses(d0), capacity));
        push_edge(&mut out, now.up, prev.up, KeyCode::Up, capacity, Ghost(d0));
        let ghost d1 = d0 + edge_key(now.up, prev.up, KeyCode::Up);
        push_edge(&mut out, now.down, prev.down, KeyCode::Down, capacity, Ghost(d1));
        let ghost d2 = d1 + edge_key(now.down, prev.down, KeyCode::Down);
        push_edge(&mut out, now.right, prev.right, KeyCode::Right, capacity, Ghost(d2));
        let ghost d3 = d2 + edge_key(now.right, prev.right, KeyCode::Right);
        push_edge(&mut out, now.left, prev.left, KeyCode::Esc, capacity, Ghost(d3));
        let ghost d4 = d3 + edge_key(now.left, prev.left, KeyCode::Esc);
        push_edge(&mut out, now.click, prev.click, KeyCode::Enter, capacity, Ghost(d4));
        let ghost d5 = d4 + edge_key(now.click, prev.click, KeyCode::Enter);
        assert(d5 =~= trackball_keys(prev, now));
        out
    }
}

} // verus!
