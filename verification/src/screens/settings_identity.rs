//! Settings sub-menu: Reticulum identity — display name and identity
//! regeneration.

use vstd::prelude::*;

use crate::command::{Command, CommandModel};
use crate::input::{KeyCode, is_ascii_char};
use crate::screens::chat::drop_last_char;
use crate::screens::home::menu_state;
use crate::screens::list::ListState;
use crate::text::{trim, chars_of, trim_chars, string_of, string_push, string_pop, concat};
use crate::context::{NetworkState, ViewContext};
use crate::scene::{DrawOp, Op, ops_view};
use crate::theme::{Theme, CHAR_W, LINE_H};
use crate::widgets::{
    EXTENT_MAX, bar_ops, cells_fit, draw_bar, draw_header, draw_row, draw_text, draw_wrapped,
    drawn_lines, fill_op, fill_rect, header_ops, px, px_of, row_ops, text_op, truncate, truncated,
    wrap_spec, wrapped_ops,
};

verus! {

/// Number of rows of the identity menu (display name, regenerate).
pub const IDENTITY_ITEMS: usize = 2;

/// The identity sub-menu.
#[derive(Debug, Default)]
pub struct SettingsIdentityScreen {
    pub state: ListState,
    /// True while editing the display name.
    pub editing: bool,
    pub name_input: String,
}

/// Abstract value of a [`SettingsIdentityScreen`].
pub struct IdentityView {
    pub state: ListState,
    pub editing: bool,
    pub name_input: Seq<char>,
}

impl View for SettingsIdentityScreen {
    type V = IdentityView;

    open spec fn view(&self) -> IdentityView {
        IdentityView { state: self.state, editing: self.editing, name_input: self.name_input@ }
    }
}

/// The identity menu's state and command after `key`.
pub open spec fn identity_key(s: IdentityView, key: KeyCode) -> (IdentityView, CommandModel) {
    if s.editing {
        match key {
            KeyCode::Char(c) => if is_ascii_char(c) {
                (IdentityView { name_input: s.name_input.push(c), ..s }, CommandModel::NoOp)
            } else {
                (s, CommandModel::NoOp)
            },
            KeyCode::Space => (
                IdentityView { name_input: s.name_input.push(' '), ..s },
                CommandModel::NoOp,
            ),
            KeyCode::Backspace => (
                IdentityView { name_input: drop_last_char(s.name_input), ..s },
                CommandModel::NoOp,
            ),
            KeyCode::Enter => (
                IdentityView { editing: false, ..s },
                if trim(s.name_input).len() == 0 {
                    CommandModel::NoOp
                } else {
                    CommandModel::SetDisplayName(trim(s.name_input))
                },
            ),
            KeyCode::Esc => (IdentityView { editing: false, ..s }, CommandModel::NoOp),
            _ => (s, CommandModel::NoOp),
        }
    } else {
        match key {
            KeyCode::Enter => if s.state.selected == 0 {
                (
                    IdentityView { editing: true, name_input: Seq::empty(), ..s },
                    CommandModel::NoOp,
                )
            } else {
                (s, CommandModel::RegenerateIdentity)
            },
            KeyCode::Esc => (s, CommandModel::Back),
            _ => (
                IdentityView { state: menu_state(s.state, IDENTITY_ITEMS, key), ..s },
                CommandModel::NoOp,
            ),
        }
    }
}

/// Whether the identity menu can take `key` without overflowing its
/// selection.
pub open spec fn identity_key_ok(s: IdentityView, key: KeyCode) -> bool {
    !s.editing && key == KeyCode::Down ==> s.state.selected < usize::MAX
}

/// What the identity menu draws: the header; the display name row (while
/// editing, a prompt and the typed name on the surface colour); the
/// regenerate row with its warning; any notice; our LXMF address wrapped
/// over at most four lines; and the footer.
/// The display-name row of the identity menu (see [`identity_scene`]).
pub open spec fn identity_name_ops(s: IdentityView, display_name: Seq<char>, width: i32, t: Theme) -> Seq<Op> {
    if s.editing {
        seq![
            text_op(0, LINE_H, "Display name:"@, t.text_dim),
            text_op(0, (2 * LINE_H) as i32, "> "@, t.accent),
            fill_op((2 * CHAR_W) as i32, (2 * LINE_H) as i32, px((width - 2 * CHAR_W) as i32), LINE_H as u32, t.surface),
            text_op(
                (2 * CHAR_W) as i32,
                (2 * LINE_H) as i32,
                truncated(s.name_input, (cells_fit((width - 12) as i32, CHAR_W) - 2) as nat),
                t.text,
            ),
        ]
    } else {
        row_ops(0, LINE_H, "Name: "@ + display_name, width, s.state.selected == 0, t.text, t)
    }
}

/// The regenerate row and its warning, from `y0` (see [`identity_scene`]).
pub open spec fn identity_regen_ops(s: IdentityView, y0: int, width: i32, t: Theme) -> Seq<Op> {
    row_ops(0, y0 as i32, "Regenerate identity"@, width, s.state.selected == 1, t.text, t) + seq![
        text_op(0, (y0 + LINE_H) as i32, "WARNING: a new LXMF address"@, t.danger),
        text_op(0, (y0 + 2 * LINE_H) as i32, "means peers must rediscover you."@, t.danger),
    ]
}

/// The address block from `y2`: its label and the address wrapped over at
/// most four lines (see [`identity_scene`]).
pub open spec fn identity_address_ops(identity_hex: Seq<char>, y2: int, width: i32, t: Theme) -> Seq<Op> {
    let lines = wrap_spec(identity_hex, cells_fit((width - 6) as i32, CHAR_W));
    seq![text_op(0, (y2 + LINE_H) as i32, "LXMF address:"@, t.text_dim)] + wrapped_ops(
        0,
        (y2 + 2 * LINE_H) as i32,
        lines,
        drawn_lines(lines.len(), 4),
        t.text,
    )
}

pub open spec fn identity_scene(
    s: IdentityView,
    n: NetworkState,
    display_name: Seq<char>,
    notice: Seq<char>,
    identity_hex: Seq<char>,
    width: i32,
    height: i32,
    t: Theme,
) -> Seq<Op> {
    let y0: int = if s.editing {
        3 * LINE_H
    } else {
        2 * LINE_H
    };
    let y1 = y0 + 3 * LINE_H;
    let notice_ops = if notice.len() == 0 {
        Seq::empty()
    } else {
        seq![text_op(0, (y1 + LINE_H) as i32, notice, t.ok)]
    };
    let y2 = if notice.len() == 0 {
        y1
    } else {
        y1 + 2 * LINE_H
    };
    header_ops(width, "Identity"@, ""@, n, t) + identity_name_ops(s, display_name, width, t)
        + identity_regen_ops(s, y0, width, t) + notice_ops + identity_address_ops(
        identity_hex,
        y2,
        width,
        t,
    ) + bar_ops(
        0,
        (height - LINE_H) as i32,
        px(width),
        LINE_H as u32,
        "ALT+Backspace back"@,
        truncated(identity_hex, 12),
        t.surface,
        t.text_dim,
        t.border,
    )
}

/// Draw the address block from `y2` (see [`identity_address_ops`]).
fn draw_address(ops: &mut Vec<DrawOp>, identity_hex: &str, y2: i32, width: i32, theme: &Theme)
    requires
        theme.wf(),
        0 <= width <= EXTENT_MAX,
        0 <= y2 <= 200,
    ensures
        ops_view(final(ops)@) == ops_view(old(ops)@) + identity_address_ops(
            identity_hex@,
            y2 as int,
            width,
            *theme,
        ),
{
    let ghost start = ops_view(ops@);
    draw_text(ops, 0, y2 + theme.line_h, "LXMF address:", theme.text_dim);
    let ghost mid = ops_view(ops@);
    draw_wrapped(ops, 0, y2 + 2 * theme.line_h, identity_hex, width - 6, 4, theme.text, theme);
    assert(ops_view(ops@) =~= start + identity_address_ops(identity_hex@, y2 as int, width, *theme));
}

impl SettingsIdentityScreen {
    /// Draw the display-name row (see [`identity_name_ops`]).
    fn draw_name_row(&self, ops: &mut Vec<DrawOp>, display_name: &str, width: i32, theme: &Theme)
        requires
            theme.wf(),
            0 <= width <= EXTENT_MAX,
            self.editing ==> width >= 24,
        ensures
            ops_view(final(ops)@) == ops_view(old(ops)@) + identity_name_ops(
                self@,
                display_name@,
                width,
                *theme,
            ),
    {
        let ghost start = ops_view(ops@);
        let y = theme.line_h;
        if self.editing {
            draw_text(ops, 0, y, "Display name:", theme.text_dim);
            let y = y + theme.line_h;
            draw_text(ops, 0, y, "> ", theme.accent);
            let prompt_w = 2 * theme.char_w;
            let text = truncate(self.name_input.as_str(), theme.chars_per_line(width - 12) - 2);
            fill_rect(ops, prompt_w, y, px_of(width - prompt_w), px_of(theme.line_h), theme.surface);
            draw_text(ops, prompt_w, y, text.as_str(), theme.text);
            assert(ops_view(ops@) =~= start + identity_name_ops(self@, display_name@, width, *theme));
        } else {
            let label = concat("Name: ", display_name);
            draw_row(ops, 0, y, label.as_str(), width, self.state.selected == 0, theme.text, theme);
        }
    }

    /// Draw the regenerate row and its warning from `y0` (see
    /// [`identity_regen_ops`]).
    fn draw_regen(&self, ops: &mut Vec<DrawOp>, y0: i32, width: i32, theme: &Theme)
        requires
            theme.wf(),
            0 <= width <= EXTENT_MAX,
            0 <= y0 <= 100,
        ensures
            ops_view(final(ops)@) == ops_view(old(ops)@) + identity_regen_ops(
                self@,
                y0 as int,
                width,
                *theme,
            ),
    {
        let ghost start = ops_view(ops@);
        draw_row(ops, 0, y0, "Regenerate identity", width, self.state.selected == 1, theme.text, theme);
        draw_text(ops, 0, y0 + theme.line_h, "WARNING: a new LXMF address", theme.danger);
        draw_text(ops, 0, y0 + 2 * theme.line_h, "means peers must rediscover you.", theme.danger);
        assert(ops_view(ops@) =~= start + identity_regen_ops(self@, y0 as int, width, *theme));
    }

    /// Draw the identity menu into a `width`×`height` frame.
    pub fn render(&self, ctx: &ViewContext, width: i32, height: i32, theme: &Theme) -> (ops: Vec<DrawOp>)
        requires
            theme.wf(),
            0 <= width <= EXTENT_MAX,
            0 <= height <= EXTENT_MAX,
            self.editing ==> width >= 24,
        ensures
            ops_view(ops@) == identity_scene(
                self@,
                ctx.network,
                ctx.display_name@,
                ctx.notice@,
                ctx.identity_hex@,
                width,
                height,
                *theme,
            ),
    {
        let mut ops: Vec<DrawOp> = Vec::new();
        draw_header(&mut ops, width, "Identity", "", &ctx.network, theme);
        // Row 0: display name (editable).
        self.draw_name_row(&mut ops, ctx.display_name, width, theme);
        let mut y = if self.editing {
            3 * theme.line_h
        } else {
            2 * theme.line_h
        };
        // Row 1: regenerate identity.
        self.draw_regen(&mut ops, y, width, theme);
        y = y + 3 * theme.line_h;
        if ctx.notice.unicode_len() != 0 {
            y = y + theme.line_h;
            draw_text(&mut ops, 0, y, ctx.notice, theme.ok);
            y = y + theme.line_h;
        }
        let ghost noticed = ops_view(ops@);
        let ghost y2 = y as int;
        // LXMF address.
        draw_address(&mut ops, ctx.identity_hex, y, width, theme);
        let short = truncate(ctx.identity_hex, 12);
        draw_bar(
            &mut ops,
            0,
            height - theme.line_h,
            px_of(width),
            px_of(theme.line_h),
            "ALT+Backspace back",
            short.as_str(),
            theme.surface,
            theme.text_dim,
            theme,
        );
        assert(ops_view(ops@) =~= identity_scene(
            self@,
            ctx.network,
            ctx.display_name@,
            ctx.notice@,
            ctx.identity_hex@,
            width,
            height,
            *theme,
        ));
        ops
    }

    pub fn new() -> (r: Self)
        ensures
            r@ == (IdentityView {
                state: ListState { selected: 0, scroll: 0 },
                editing: false,
                name_input: Seq::empty(),
            }),
    {
        SettingsIdentityScreen {
            state: ListState { selected: 0, scroll: 0 },
            editing: false,
            name_input: String::new(),
        }
    }

    /// Whether [`SettingsIdentityScreen::handle_key`] can take `key` now.
    pub fn accepts(&self, key: KeyCode) -> (r: bool)
        ensures
            r == identity_key_ok(self@, key),
    {
        self.editing || key != KeyCode::Down || self.state.selected < usize::MAX
    }

    /// While editing: ASCII characters and Space type, Backspace deletes,
    /// Enter sets the trimmed name (when not blank), Esc cancels. Otherwise
    /// Up/Down move, Enter edits the name or regenerates the identity, Esc
    /// goes back.
    pub fn handle_key(&mut self, key: KeyCode) -> (r: Command)
        requires
            identity_key_ok(old(self)@, key),
        ensures
            (final(self)@, r@) == identity_key(old(self)@, key),
    {
        if self.editing {
            return match key {
                KeyCode::Char(c) => {
                    if (c as u32) < 0x80 {
                        string_push(&mut self.name_input, c);
                    }
                    Command::NoOp
                },
                KeyCode::Space => {
                    string_push(&mut self.name_input, ' ');
                    Command::NoOp
                },
                KeyCode::Backspace => {
                    string_pop(&mut self.name_input);
                    Command::NoOp
                },
                KeyCode::Enter => {
                    let v = chars_of(self.name_input.as_str());
                    let name = trim_chars(&v);
                    self.editing = false;
                    if name.len() == 0 {
                        Command::NoOp
                    } else {
                        Command::SetDisplayName(string_of(&name))
                    }
                },
                KeyCode::Esc => {
                    self.editing = false;
                    Command::NoOp
                },
                _ => Command::NoOp,
            };
        }
        match key {
            KeyCode::Up => {
                self.state.move_up();
                Command::NoOp
            },
            KeyCode::Down => {
                self.state.move_down(IDENTITY_ITEMS);
                Command::NoOp
            },
            KeyCode::Enter => match self.state.selected {
                0 => {
                    self.editing = true;
                    self.name_input = String::new();
                    Command::NoOp
                },
                _ => Command::RegenerateIdentity,
            },
            KeyCode::Esc => Command::Back,
            _ => Command::NoOp,
        }
    }
}

} // verus!
