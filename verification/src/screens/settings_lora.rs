//! Settings sub-menu: LoRa radio — enable/disable and radio parameters.

use vstd::prelude::*;

use crate::command::{Command, CommandModel, LoraSettings};
use crate::input::KeyCode;
use crate::screens::chat::drop_last_char;
use crate::screens::home::menu_state;
use crate::screens::list::ListState;
use crate::text::{
    concat, trim, is_digit, decimal, signed_decimal, parse_i64_spec, parse_i64, trim_string, string_push,
    string_pop, u64_to_string, i64_to_string, lemma_parse_signed_decimal,
};

use crate::context::{NetworkState, ViewContext};
use crate::scene::{DrawOp, Op, ops_view};
use crate::theme::{Theme, LINE_H};
use crate::widgets::{
    EXTENT_MAX, bar_ops, draw_bar, draw_header, draw_row, draw_text, header_ops, px, px_of,
    row_ops, text_op, truncate, truncated,
};

verus! {

/// Number of rows of the LoRa menu (toggle, five values, save).
pub const LORA_ITEMS: usize = 7;

/// An editable radio parameter.
#[derive(Debug, Clone, Copy, PartialEq, Eq, Structural)]
pub enum LoraField {
    Frequency,
    Bandwidth,
    SpreadingFactor,
    CodingRate,
    TxPower,
}

/// The LoRa sub-menu.
#[derive(Debug, Default)]
pub struct SettingsLoraScreen {
    state: ListState,
    enabled: bool,
    editing: Option<LoraField>,
    freq_input: String,
    bw_input: String,
    sf_input: String,
    cr_input: String,
    txp_input: String,
    /// Whether the editable values have been seeded from the current config.
    seeded: bool,
}

/// Abstract value of a [`SettingsLoraScreen`].
pub struct LoraView {
    pub state: ListState,
    pub enabled: bool,
    pub editing: Option<LoraField>,
    pub freq_input: Seq<char>,
    pub bw_input: Seq<char>,
    pub sf_input: Seq<char>,
    pub cr_input: Seq<char>,
    pub txp_input: Seq<char>,
    pub seeded: bool,
}

impl View for SettingsLoraScreen {
    type V = LoraView;

    closed spec fn view(&self) -> LoraView {
        LoraView {
            state: self.state,
            enabled: self.enabled,
            editing: self.editing,
            freq_input: self.freq_input@,
            bw_input: self.bw_input@,
            sf_input: self.sf_input@,
            cr_input: self.cr_input@,
            txp_input: self.txp_input@,
            seeded: self.seeded,
        }
    }
}


/// The text typed for field `f`.
pub open spec fn field_input(s: LoraView, f: LoraField) -> Seq<char> {
    match f {
        LoraField::Frequency => s.freq_input,
        LoraField::Bandwidth => s.bw_input,
        LoraField::SpreadingFactor => s.sf_input,
        LoraField::CodingRate => s.cr_input,
        LoraField::TxPower => s.txp_input,
    }
}

/// `s` with the text of field `f` replaced by `t`.
pub open spec fn with_field_input(s: LoraView, f: LoraField, t: Seq<char>) -> LoraView {
    match f {
        LoraField::Frequency => LoraView { freq_input: t, ..s },
        LoraField::Bandwidth => LoraView { bw_input: t, ..s },
        LoraField::SpreadingFactor => LoraView { sf_input: t, ..s },
        LoraField::CodingRate => LoraView { cr_input: t, ..s },
        LoraField::TxPower => LoraView { txp_input: t, ..s },
    }
}

/// The number typed in `t` (white space around it ignored), or 0 when it is
/// not an `i64`.
pub open spec fn parse_or_zero(t: Seq<char>) -> int {
    match parse_i64_spec(trim(t)) {
        Some(v) => v as int,
        None => 0,
    }
}

/// `v` limited to `[lo, hi]`.
pub open spec fn clamp_int(v: int, lo: int, hi: int) -> int {
    if v < lo {
        lo
    } else if v > hi {
        hi
    } else {
        v
    }
}

/// The settings the typed values give: frequency in kHz within
/// 100 000..2 500 000, bandwidth in kHz within 8..500, spreading factor
/// 7..12, coding rate 5..8, TX power -9..22 dBm.
pub open spec fn lora_settings_of(s: LoraView) -> LoraSettings {
    LoraSettings {
        enabled: s.enabled,
        frequency_hz: (clamp_int(parse_or_zero(s.freq_input), 100_000, 2_500_000) * 1000) as u64,
        bandwidth_hz: (clamp_int(parse_or_zero(s.bw_input), 8, 500) * 1000) as u64,
        spreading_factor: clamp_int(parse_or_zero(s.sf_input), 7, 12) as u8,
        coding_rate: clamp_int(parse_or_zero(s.cr_input), 5, 8) as u8,
        tx_power_dbm: clamp_int(parse_or_zero(s.txp_input), -9, 22) as i8,
    }
}

/// The field that menu row `row` edits.
pub open spec fn row_field(row: usize) -> Option<LoraField> {
    if row == 1 {
        Some(LoraField::Frequency)
    } else if row == 2 {
        Some(LoraField::Bandwidth)
    } else if row == 3 {
        Some(LoraField::SpreadingFactor)
    } else if row == 4 {
        Some(LoraField::CodingRate)
    } else if row == 5 {
        Some(LoraField::TxPower)
    } else {
        None
    }
}

/// The LoRa menu's state and command after `key`.
pub open spec fn lora_key(s: LoraView, key: KeyCode) -> (LoraView, CommandModel) {
    match s.editing {
        Some(f) => {
            let t = field_input(s, f);
            match key {
                KeyCode::Char(c) => if is_digit(c) || (c == '-' && t.len() == 0 && f
                    == LoraField::TxPower) {
                    (with_field_input(s, f, t.push(c)), CommandModel::NoOp)
                } else {
                    (s, CommandModel::NoOp)
                },
                KeyCode::Backspace => (
                    with_field_input(s, f, drop_last_char(t)),
                    CommandModel::NoOp,
                ),
                KeyCode::Enter | KeyCode::Esc => (LoraView { editing: None, ..s }, CommandModel::NoOp),
                _ => (s, CommandModel::NoOp),
            }
        },
        None => match key {
            KeyCode::Enter => if s.state.selected == 0 {
                (LoraView { enabled: !s.enabled, ..s }, CommandModel::NoOp)
            } else if row_field(s.state.selected) is Some {
                (LoraView { editing: row_field(s.state.selected), ..s }, CommandModel::NoOp)
            } else {
                (s, CommandModel::SaveLora(lora_settings_of(s)))
            },
            KeyCode::Esc => (s, CommandModel::Back),
            _ => (LoraView { state: menu_state(s.state, LORA_ITEMS, key), ..s }, CommandModel::NoOp),
        },
    }
}

/// Whether the LoRa menu can take `key` without overflowing its selection.
pub open spec fn lora_key_ok(s: LoraView, key: KeyCode) -> bool {
    s.editing is None && key == KeyCode::Down ==> s.state.selected < usize::MAX
}

/// The values shown for `cur` once seeded.
pub open spec fn seeded_view(s: LoraView, cur: LoraSettings) -> LoraView {
    LoraView {
        seeded: true,
        enabled: cur.enabled,
        freq_input: decimal((cur.frequency_hz / 1000) as nat),
        bw_input: decimal((cur.bandwidth_hz / 1000) as nat),
        sf_input: decimal(cur.spreading_factor as nat),
        cr_input: decimal(cur.coding_rate as nat),
        txp_input: signed_decimal(cur.tx_power_dbm as int),
        ..s
    }
}

/// The LoRa menu after [`SettingsLoraScreen::render`] seeded it.
pub open spec fn lora_seeded(s: LoraView, current: Option<LoraSettings>) -> LoraView {
    if s.seeded {
        s
    } else {
        seeded_view(
            s,
            match current {
                Some(c) => c,
                None => default_lora(),
            },
        )
    }
}

/// The row of value `f` labelled `label`, highlighted while selected (row
/// `index`) or edited.
pub open spec fn value_row_ops(s: LoraView, y: int, index: usize, label: Seq<char>, f: LoraField, width: i32, t: Theme) -> Seq<Op> {
    row_ops(
        0,
        y as i32,
        label + ": "@ + field_input(s, f),
        width,
        s.state.selected == index || s.editing == Some(f),
        t.text,
        t,
    )
}

/// The rows of the LoRa menu, from `y`: the toggle, the five values and
/// "Save & restart".
pub open spec fn lora_rows_ops(s: LoraView, y: int, width: i32, t: Theme) -> Seq<Op> {
    row_ops(
        0,
        y as i32,
        "Enabled: "@ + if s.enabled {
            "on"@
        } else {
            "off"@
        },
        width,
        s.state.selected == 0,
        t.text,
        t,
    ) + value_row_ops(s, y + LINE_H, 1, "Frequency (kHz)"@, LoraField::Frequency, width, t)
        + value_row_ops(s, y + 2 * LINE_H, 2, "Bandwidth (kHz)"@, LoraField::Bandwidth, width, t)
        + value_row_ops(s, y + 3 * LINE_H, 3, "Spreading factor"@, LoraField::SpreadingFactor, width, t)
        + value_row_ops(s, y + 4 * LINE_H, 4, "Coding rate (4/n)"@, LoraField::CodingRate, width, t)
        + value_row_ops(s, y + 5 * LINE_H, 5, "TX power (dBm)"@, LoraField::TxPower, width, t)
        + row_ops(0, (y + 6 * LINE_H) as i32, "Save & restart"@, width, s.state.selected == 6, t.text, t)
}

/// What the LoRa menu draws for the (seeded) menu state `s`: the header;
/// whether the radio is enabled; the rows; any notice; and the footer.
pub open spec fn lora_scene(
    s: LoraView,
    n: NetworkState,
    notice: Seq<char>,
    identity_hex: Seq<char>,
    width: i32,
    height: i32,
    t: Theme,
) -> Seq<Op> {
    let notice_ops = if notice.len() == 0 {
        Seq::empty()
    } else {
        seq![text_op(0, (10 * LINE_H + 4) as i32, notice, t.ok)]
    };
    header_ops(width, "LoRa"@, ""@, n, t) + seq![
        text_op(
            0,
            LINE_H,
            if s.enabled {
                "Radio: enabled"@
            } else {
                "Radio: disabled"@
            },
            t.text_dim,
        ),
    ] + lora_rows_ops(s, 2 * LINE_H + 4, width, t) + notice_ops + bar_ops(
        0,
        (height - LINE_H) as i32,
        px(width),
        LINE_H as u32,
        "ALT+Backspace back"@,
        truncated(identity_hex, 12),
        t.surface,
        t.text_dim,
        t.border,
    )
}

/// The default radio configuration.
pub open spec fn default_lora() -> LoraSettings {
    LoraSettings {
        enabled: false,
        frequency_hz: 868_000_000,
        bandwidth_hz: 125_000,
        spreading_factor: 7,
        coding_rate: 5,
        tx_power_dbm: 14,
    }
}

/// Whether `s` lies within the ranges the menu can express: whole kHz,
/// frequency 100 000..2 500 000 kHz, bandwidth 8..500 kHz, spreading factor
/// 7..12, coding rate 5..8, TX power -9..22 dBm.
pub open spec fn lora_in_range(s: LoraSettings) -> bool {
    &&& s.frequency_hz % 1000 == 0
    &&& 100_000 <= s.frequency_hz / 1000 <= 2_500_000
    &&& s.bandwidth_hz % 1000 == 0
    &&& 8 <= s.bandwidth_hz / 1000 <= 500
    &&& 7 <= s.spreading_factor <= 12
    &&& 5 <= s.coding_rate <= 8
    &&& -9 <= s.tx_power_dbm <= 22
}

/// The number `t` holds (see [`parse_or_zero`]).
pub fn parse(input: &str) -> (r: i64)
    ensures
        r as int == parse_or_zero(input@),
{
    let t = trim_string(input);
    match parse_i64(t.as_str()) {
        Some(v) => v,
        None => 0,
    }
}

/// `v` limited to `[lo, hi]`.
fn clamp_i64(v: i64, lo: i64, hi: i64) -> (r: i64)
    requires
        lo <= hi,
    ensures
        r as int == clamp_int(v as int, lo as int, hi as int),
{
    if v < lo {
        lo
    } else if v > hi {
        hi
    } else {
        v
    }
}

impl SettingsLoraScreen {
    /// The list's selection and scroll.
    pub fn state(&self) -> (r: ListState)
        ensures
            r == self@.state,
    {
        self.state
    }

    pub fn new() -> (r: Self)
        ensures
            r@ == (LoraView {
                state: ListState { selected: 0, scroll: 0 },
                enabled: false,
                editing: None,
                freq_input: Seq::empty(),
                bw_input: Seq::empty(),
                sf_input: Seq::empty(),
                cr_input: Seq::empty(),
                txp_input: Seq::empty(),
                seeded: false,
            }),
    {
        SettingsLoraScreen {
            state: ListState { selected: 0, scroll: 0 },
            enabled: false,
            editing: None,
            freq_input: String::new(),
            bw_input: String::new(),
            sf_input: String::new(),
            cr_input: String::new(),
            txp_input: String::new(),
            seeded: false,
        }
    }

    /// Whether the radio is set to be enabled.
    pub fn enabled(&self) -> (r: bool)
        ensures
            r == self@.enabled,
    {
        self.enabled
    }

    /// The field being edited, if any.
    pub fn editing(&self) -> (r: Option<LoraField>)
        ensures
            r == self@.editing,
    {
        self.editing
    }

    /// The text typed for field `f`.
    pub fn input(&self, f: LoraField) -> (r: &str)
        ensures
            r@ == field_input(self@, f),
    {
        match f {
            LoraField::Frequency => self.freq_input.as_str(),
            LoraField::Bandwidth => self.bw_input.as_str(),
            LoraField::SpreadingFactor => self.sf_input.as_str(),
            LoraField::CodingRate => self.cr_input.as_str(),
            LoraField::TxPower => self.txp_input.as_str(),
        }
    }

    /// Fill the editable values from the current configuration (or the
    /// defaults), once.
    pub fn seed(&mut self, current: Option<LoraSettings>)
        ensures
            final(self)@ == if old(self)@.seeded {
                old(self)@
            } else {
                seeded_view(
                    old(self)@,
                    match current {
                        Some(c) => c,
                        None => default_lora(),
                    },
                )
            },
    {
        if !self.seeded {
            self.seeded = true;
            let s = match current {
                Some(c) => c,
                None => LoraSettings::default(),
            };
            self.enabled = s.enabled;
            self.freq_input = u64_to_string(s.frequency_hz / 1000);
            self.bw_input = u64_to_string(s.bandwidth_hz / 1000);
            self.sf_input = u64_to_string(s.spreading_factor as u64);
            self.cr_input = u64_to_string(s.coding_rate as u64);
            self.txp_input = i64_to_string(s.tx_power_dbm as i64);
        }
    }

    /// Draw the row of value `f` (see [`value_row_ops`]).
    fn draw_value(
        &self,
        ops: &mut Vec<DrawOp>,
        width: i32,
        y: i32,
        theme: &Theme,
        index: usize,
        label: &str,
        field: LoraField,
    )
        requires
            theme.wf(),
            0 <= width <= EXTENT_MAX,
        ensures
            ops_view(final(ops)@) == ops_view(old(ops)@) + value_row_ops(
                self@,
                y as int,
                index,
                label@,
                field,
                width,
                *theme,
            ),
    {
        let head = concat(label, ": ");
        let line = concat(head.as_str(), self.input(field));
        let is_editing = match self.editing {
            Some(e) => e == field,
            None => false,
        };
        draw_row(ops, 0, y, line.as_str(), width, self.state.selected == index || is_editing, theme.text, theme);
    }

    /// Draw the rows of the menu from `y` (see [`lora_rows_ops`]).
    fn draw_rows(&self, ops: &mut Vec<DrawOp>, width: i32, y: i32, theme: &Theme)
        requires
            theme.wf(),
            0 <= width <= EXTENT_MAX,
            0 <= y <= 100,
        ensures
            ops_view(final(ops)@) == ops_view(old(ops)@) + lora_rows_ops(self@, y as int, width, *theme),
    {
        let ghost start = ops_view(ops@);
        // Row 0: enabled toggle.
        let line = concat("Enabled: ", if self.enabled { "on" } else { "off" });
        draw_row(ops, 0, y, line.as_str(), width, self.state.selected == 0, theme.text, theme);
        let lh = theme.line_h;
        self.draw_value(ops, width, y + lh, theme, 1, "Frequency (kHz)", LoraField::Frequency);
        self.draw_value(ops, width, y + 2 * lh, theme, 2, "Bandwidth (kHz)", LoraField::Bandwidth);
        self.draw_value(ops, width, y + 3 * lh, theme, 3, "Spreading factor", LoraField::SpreadingFactor);
        self.draw_value(ops, width, y + 4 * lh, theme, 4, "Coding rate (4/n)", LoraField::CodingRate);
        self.draw_value(ops, width, y + 5 * lh, theme, 5, "TX power (dBm)", LoraField::TxPower);
        // Row 6: save & restart.
        draw_row(ops, 0, y + 6 * lh, "Save & restart", width, self.state.selected == 6, theme.text, theme);
        assert(ops_view(ops@) =~= start + lora_rows_ops(self@, y as int, width, *theme));
    }

    /// Draw the LoRa menu into a `width`×`height` frame, first seeding it
    /// from the current radio settings (see [`SettingsLoraScreen::seed`]).
    pub fn render(&mut self, ctx: &ViewContext, width: i32, height: i32, theme: &Theme) -> (ops: Vec<DrawOp>)
        requires
            theme.wf(),
            0 <= width <= EXTENT_MAX,
            0 <= height <= EXTENT_MAX,
        ensures
            final(self)@ == lora_seeded(old(self)@, ctx.lora_settings),
            ops_view(ops@) == lora_scene(
                final(self)@,
                ctx.network,
                ctx.notice@,
                ctx.identity_hex@,
                width,
                height,
                *theme,
            ),
    {
        self.seed(ctx.lora_settings);
        let mut ops: Vec<DrawOp> = Vec::new();
        draw_header(&mut ops, width, "LoRa", "", &ctx.network, theme);
        let mut y = theme.line_h;
        let status = if self.enabled {
            "Radio: enabled"
        } else {
            "Radio: disabled"
        };
        draw_text(&mut ops, 0, y, status, theme.text_dim);
        y = y + theme.line_h + 4;
        self.draw_rows(&mut ops, width, y, theme);
        y = y + 7 * theme.line_h;
        if ctx.notice.unicode_len() != 0 {
            y = y + theme.line_h;
            draw_text(&mut ops, 0, y, ctx.notice, theme.ok);
        }
        let short = truncate(ctx.identity_hex, 12);
        draw_bar(
            &mut ops,
            0,
            height - theme.line_h,
            px_of(width),
            px_of(theme.line_h),
            "ALT+Backspace back",
            short.as_str(),
            theme.surface,
            theme.text_dim,
            theme,
        );
        assert(ops_view(ops@) =~= lora_scene(
            self@,
            ctx.network,
            ctx.notice@,
            ctx.identity_hex@,
            width,
            height,
            *theme,
        ));
        ops
    }

    /// The settings the typed values give (see [`lora_settings_of`]).
    pub fn settings(&self) -> (r: LoraSettings)
        ensures
            r == lora_settings_of(self@),
    {
        let freq_khz = clamp_i64(parse(self.freq_input.as_str()), 100_000, 2_500_000) as u64;
        let bw_khz = clamp_i64(parse(self.bw_input.as_str()), 8, 500) as u64;
        LoraSettings {
            enabled: self.enabled,
            frequency_hz: freq_khz * 1000,
            bandwidth_hz: bw_khz * 1000,
            spreading_factor: clamp_i64(parse(self.sf_input.as_str()), 7, 12) as u8,
            coding_rate: clamp_i64(parse(self.cr_input.as_str()), 5, 8) as u8,
            tx_power_dbm: clamp_i64(parse(self.txp_input.as_str()), -9, 22) as i8,
        }
    }

    /// Whether [`SettingsLoraScreen::handle_key`] can take `key` now.
    pub fn accepts(&self, key: KeyCode) -> (r: bool)
        ensures
            r == lora_key_ok(self@, key),
    {
        self.editing.is_some() || key != KeyCode::Down || self.state.selected < usize::MAX
    }

    fn push_input(&mut self, f: LoraField, c: char)
        ensures
            final(self)@ == with_field_input(old(self)@, f, field_input(old(self)@, f).push(c)),
    {
        match f {
            LoraField::Frequency => string_push(&mut self.freq_input, c),
            LoraField::Bandwidth => string_push(&mut self.bw_input, c),
            LoraField::SpreadingFactor => string_push(&mut self.sf_input, c),
            LoraField::CodingRate => string_push(&mut self.cr_input, c),
            LoraField::TxPower => string_push(&mut self.txp_input, c),
        }
    }

    fn pop_input(&mut self, f: LoraField)
        ensures
            final(self)@ == with_field_input(old(self)@, f, drop_last_char(field_input(old(self)@, f))),
    {
        match f {
            LoraField::Frequency => {
                string_pop(&mut self.freq_input);
            },
            LoraField::Bandwidth => {
                string_pop(&mut self.bw_input);
            },
            LoraField::SpreadingFactor => {
                string_pop(&mut self.sf_input);
            },
            LoraField::CodingRate => {
                string_pop(&mut self.cr_input);
            },
            LoraField::TxPower => {
                string_pop(&mut self.txp_input);
            },
        }
    }

    /// While editing a value: digits type (and a leading `-` for the TX
    /// power), Backspace deletes, Enter or Esc ends editing. Otherwise
    /// Up/Down move; Enter toggles the radio, edits the selected value or
    /// saves; Esc goes back.
    pub fn handle_key(&mut self, key: KeyCode) -> (r: Command)
        requires
            lora_key_ok(old(self)@, key),
        ensures
            (final(self)@, r@) == lora_key(old(self)@, key),
    {
        if let Some(field) = self.editing {
            return match key {
                KeyCode::Char(c) => {
                    let empty = self.input(field).is_empty();
                    if ('0' <= c && c <= '9') || (c == '-' && empty && field == LoraField::TxPower) {
                        self.push_input(field, c);
                    }
                    Command::NoOp
                },
                KeyCode::Backspace => {
                    self.pop_input(field);
                    Command::NoOp
                },
                KeyCode::Enter | KeyCode::Esc => {
                    self.editing = None;
                    Command::NoOp
                },
                _ => Command::NoOp,
            };
        }
        match key {
            KeyCode::Up => {
                self.state.move_up();
                Command::NoOp
            },
            KeyCode::Down => {
                self.state.move_down(LORA_ITEMS);
                Command::NoOp
            },
            KeyCode::Enter => match self.state.selected {
                0 => {
                    self.enabled = !self.enabled;
                    Command::NoOp
                },
                1 => {
                    self.editing = Some(LoraField::Frequency);
                    Command::NoOp
                },
                2 => {
                    self.editing = Some(LoraField::Bandwidth);
                    Command::NoOp
                },
                3 => {
                    self.editing = Some(LoraField::SpreadingFactor);
                    Command::NoOp
                },
                4 => {
                    self.editing = Some(LoraField::CodingRate);
                    Command::NoOp
                },
                5 => {
                    self.editing = Some(LoraField::TxPower);
                    Command::NoOp
                },
                _ => Command::SaveLora(self.settings()),
            },
            KeyCode::Esc => Command::Back,
            _ => Command::NoOp,
        }
    }
}

/// Seeding the menu from settings the menu can express, and saving without
/// editing, gives back the same settings.
pub proof fn lemma_seed_then_save(s: LoraView, cur: LoraSettings)
    requires
        lora_in_range(cur),
    ensures
        lora_settings_of(seeded_view(s, cur)) == cur,
{
    let v = seeded_view(s, cur);
    let f = (cur.frequency_hz / 1000) as i64;
    let b = (cur.bandwidth_hz / 1000) as i64;
    lemma_parse_signed_decimal(f);
    lemma_parse_signed_decimal(b);
    lemma_parse_signed_decimal(cur.spreading_factor as i64);
    lemma_parse_signed_decimal(cur.coding_rate as i64);
    lemma_parse_signed_decimal(cur.tx_power_dbm as i64);
    assert(parse_or_zero(v.freq_input) == f);
    assert(parse_or_zero(v.bw_input) == b);
    assert(parse_or_zero(v.sf_input) == cur.spreading_factor);
    assert(parse_or_zero(v.cr_input) == cur.coding_rate);
    assert(parse_or_zero(v.txp_input) == cur.tx_power_dbm);
}

} // verus!
