//! "Start a new chat" screen: enter a peer LXMF address.

use vstd::prelude::*;

use crate::command::{Command, CommandModel};
use crate::hex::{hex16_of, hex16_sliceable, parse_hex16, check_hex16_sliceable};
use vstd::utf8::encode_utf8;
use crate::context::ViewContext;
use crate::input::KeyCode;
use crate::scene::{DrawOp, Op, ops_view};
use crate::theme::{Theme, CHAR_W, LINE_H};
use crate::widgets::{
    EXTENT_MAX, bar_ops, cells_fit, draw_bar, draw_text, fill_op, fill_rect, px, px_of, text_op,
    truncate, truncated,
};
use crate::screens::chat::{drop_last_char, opt_view};
use crate::text::{
    trim, starts_with, decimal, chars_of, trim_chars, slice_chars, string_of, string_push,
    string_pop, append_chars, decimal_chars,
};

verus! {

/// Entry of a peer address.
#[derive(Debug, Default)]
pub struct NewChatScreen {
    pub input: String,
    pub error: Option<String>,
}

/// Abstract value of a [`NewChatScreen`].
pub struct NewChatView {
    pub input: Seq<char>,
    pub error: Option<Seq<char>>,
}

impl View for NewChatScreen {
    type V = NewChatView;

    open spec fn view(&self) -> NewChatView {
        NewChatView { input: self.input@, error: opt_view(self.error) }
    }
}

/// Whether `c` is an ASCII hex digit.
pub open spec fn is_hex_digit(c: char) -> bool {
    ('0' <= c <= '9') || ('a' <= c <= 'f') || ('A' <= c <= 'F')
}

/// ASCII lowercase of `c`.
pub open spec fn ascii_lower(c: char) -> char {
    if 'A' <= c <= 'Z' {
        ((c as u32) + 32) as char
    } else {
        c
    }
}

/// The address text without white space and without a `0x` prefix.
pub open spec fn address_digits(input: Seq<char>) -> Seq<char> {
    let t = trim(input);
    if starts_with(t, "0x"@) {
        t.subrange(2, t.len() as int)
    } else {
        t
    }
}

/// An LXMF address typed as 32 hex digits (optionally `0x`-prefixed, with
/// surrounding white space ignored), or the error shown to the user. Lengths
/// count UTF-8 bytes, as `str::len` does.
pub open spec fn parse_address_spec(input: Seq<char>) -> Result<Seq<u8>, Seq<char>> {
    let h = encode_utf8(address_digits(input));
    if h.len() != 32 {
        Err("expected 32 hex chars, got "@ + decimal(h.len()))
    } else {
        match hex16_of(h) {
            Some(b) => Ok(b),
            None => Err("invalid hex digit"@),
        }
    }
}

/// Whether parsing `input` slices the address text only on character
/// boundaries (the typed text is cut into two-byte pieces).
pub open spec fn address_sliceable(input: Seq<char>) -> bool {
    hex16_sliceable(encode_utf8(address_digits(input)))
}

/// The address text of `input`, as a vector of characters.
fn address_digit_chars(input: &str) -> (r: Vec<char>)
    ensures
        r@ == address_digits(input@),
{
    let v = chars_of(input);
    let t = trim_chars(&v);
    proof {
        reveal_strlit("0x");
        assert("0x"@ =~= seq!['0', 'x']);
    }
    if t.len() >= 2 && t[0] == '0' && t[1] == 'x' {
        assert(t@.subrange(0, 2) =~= "0x"@);
        slice_chars(&t, 2, t.len())
    } else {
        proof {
            if t@.len() >= 2 {
                assert(t@.subrange(0, 2)[0] == t@[0]);
                assert(t@.subrange(0, 2)[1] == t@[1]);
            }
        }
        assert(t@.subrange(0, t@.len() as int) == t@);
        slice_chars(&t, 0, t.len())
    }
}

/// Whether [`address_sliceable`] holds of `input`.
pub fn check_address_sliceable(input: &str) -> (r: bool)
    ensures
        r == address_sliceable(input@),
{
    let hex = address_digit_chars(input);
    let text = string_of(&hex);
    check_hex16_sliceable(text.as_str().as_bytes())
}

/// Parse a typed peer address (see [`parse_address_spec`]).
pub fn parse_address(input: &str) -> (r: Result<[u8; 16], String>)
    requires
        address_sliceable(input@),
    ensures
        match (r, parse_address_spec(input@)) {
            (Ok(a), Ok(b)) => a@ == b,
            (Err(e), Err(m)) => e@ == m,
            _ => false,
        },
{
    let hex = address_digit_chars(input);
    let text = string_of(&hex);
    let bytes = text.as_str().as_bytes();
    if bytes.len() != 32 {
        let mut msg = chars_of("expected 32 hex chars, got ");
        let d = decimal_chars(bytes.len() as u64);
        append_chars(&mut msg, &d);
        return Err(string_of(&msg));
    }
    match parse_hex16(bytes) {
        Some(out) => Ok(out),
        None => Err(string_of(&chars_of("invalid hex digit"))),
    }
}

/// The new-chat screen's state and command after `key`.
pub open spec fn new_chat_key(s: NewChatView, key: KeyCode) -> (NewChatView, CommandModel) {
    match key {
        KeyCode::Char(c) => if is_hex_digit(c) {
            (NewChatView { input: s.input.push(ascii_lower(c)), error: None }, CommandModel::NoOp)
        } else if (c == 'x' || c == 'X') && (s.input.len() == 0 || s.input[0] == '0') {
            (NewChatView { input: s.input.push('x'), ..s }, CommandModel::NoOp)
        } else {
            (s, CommandModel::NoOp)
        },
        KeyCode::Backspace => (
            NewChatView { input: drop_last_char(s.input), ..s },
            CommandModel::NoOp,
        ),
        KeyCode::Enter => match parse_address_spec(s.input) {
            Ok(peer) => (s, CommandModel::StartChat(seq_to_addr(peer))),
            Err(e) => (NewChatView { error: Some(e), ..s }, CommandModel::NoOp),
        },
        KeyCode::Esc => (s, CommandModel::Back),
        _ => (s, CommandModel::NoOp),
    }
}

/// The 16-byte array holding the first 16 bytes of `s`.
pub open spec fn seq_to_addr(s: Seq<u8>) -> [u8; 16] {
    choose|a: [u8; 16]| a@ == s
}

/// Whether the text cursor is shown at `uptime_ms`: it blinks every half
/// second.
pub open spec fn blink_on(uptime_ms: u64) -> bool {
    (uptime_ms / 500) % 2 == 0
}

/// What the new-chat screen draws: a header, the prompt, the input line on
/// the surface colour (a placeholder while empty) with a blinking block
/// cursor after the typed text, the last error if any, and the key hint.
pub open spec fn new_chat_scene(s: NewChatView, uptime_ms: u64, width: i32, t: Theme) -> Seq<Op> {
    let shown = if s.input.len() == 0 {
        "e.g. 00112233445566778899aabbccddeeff"@
    } else {
        s.input
    };
    let cursor = if blink_on(uptime_ms) && s.input.len() > 0 {
        seq![fill_op((s.input.len() * CHAR_W) as i32, 20, CHAR_W as u32, LINE_H as u32, t.accent)]
    } else {
        Seq::empty()
    };
    let (error, hint_y) = match s.error {
        Some(e) => (seq![text_op(0, 40, e, t.danger)], 50i32),
        None => (Seq::empty(), 40i32),
    };
    bar_ops(0, 0, px(width), LINE_H as u32, "New message"@, ""@, t.header, t.header_text, t.border)
        + seq![
        text_op(0, 10, "Peer address (32 hex chars):"@, t.text_dim),
        fill_op(0, 20, px(width), LINE_H as u32, t.surface),
        text_op(0, 20, truncated(shown, cells_fit((width - 12) as i32, CHAR_W)), t.text),
    ] + cursor + error + seq![text_op(0, hint_y, "ENTER to start chat | ESC back"@, t.text_dim)]
}

impl NewChatScreen {
    /// Draw the address entry into a frame `width` pixels wide.
    pub fn render(&self, ctx: &ViewContext, width: i32, theme: &Theme) -> (ops: Vec<DrawOp>)
        requires
            theme.wf(),
            0 <= width <= EXTENT_MAX,
            self.input@.len() * CHAR_W <= EXTENT_MAX,
        ensures
            ops_view(ops@) == new_chat_scene(self@, ctx.network.uptime_ms, width, *theme),
    {
        let mut ops: Vec<DrawOp> = Vec::new();
        draw_bar(
            &mut ops,
            0,
            0,
            px_of(width),
            px_of(theme.line_h),
            "New message",
            "",
            theme.header,
            theme.header_text,
            theme,
        );
        let mut y = theme.line_h;
        draw_text(&mut ops, 0, y, "Peer address (32 hex chars):", theme.text_dim);
        y = y + theme.line_h;
        fill_rect(&mut ops, 0, y, px_of(width), px_of(theme.line_h), theme.surface);
        let text = if self.input.as_str().unicode_len() == 0 {
            "e.g. 00112233445566778899aabbccddeeff"
        } else {
            self.input.as_str()
        };
        let text = truncate(text, theme.chars_per_line(width - 12));
        draw_text(&mut ops, 0, y, text.as_str(), theme.text);
        let blink_on = (ctx.network.uptime_ms / 500) % 2 == 0;
        let n = self.input.as_str().unicode_len();
        if blink_on && n != 0 {
            let cx = (n as i32) * theme.char_w;
            fill_rect(&mut ops, cx, y, px_of(theme.char_w), px_of(theme.line_h), theme.accent);
        }
        y = y + theme.line_h + 10;
        match &self.error {
            Some(err) => {
                draw_text(&mut ops, 0, y, err.as_str(), theme.danger);
                y = y + theme.line_h;
            },
            None => {},
        }
        draw_text(&mut ops, 0, y, "ENTER to start chat | ESC back", theme.text_dim);
        assert(ops_view(ops@) =~= new_chat_scene(self@, ctx.network.uptime_ms, width, *theme));
        ops
    }

    pub fn new() -> (r: Self)
        ensures
            r@ == (NewChatView { input: Seq::empty(), error: None }),
    {
        NewChatScreen { input: String::new(), error: None }
    }

    /// Whether [`NewChatScreen::handle_key`] takes `key` in the current state:
    /// Enter parses the typed address, which must not cut a character apart.
    pub fn accepts(&self, key: KeyCode) -> (r: bool)
        ensures
            r == (key == KeyCode::Enter ==> address_sliceable(self.input@)),
    {
        match key {
            KeyCode::Enter => check_address_sliceable(self.input.as_str()),
            _ => true,
        }
    }

    /// Hex digits (lowercased) and a `0x` prefix edit the address; Enter
    /// starts the chat or shows why the address is invalid; Esc goes back.
    pub fn handle_key(&mut self, key: KeyCode) -> (r: Command)
        requires
            key == KeyCode::Enter ==> address_sliceable(old(self).input@),
        ensures
            (final(self)@, r@) == new_chat_key(old(self)@, key),
    {
        match key {
            KeyCode::Char(c) => {
                if ('0' <= c && c <= '9') || ('a' <= c && c <= 'f') || ('A' <= c && c <= 'F') {
                    let lower = if 'A' <= c && c <= 'Z' {
                        ((c as u8) + 32) as char
                    } else {
                        c
                    };
                    string_push(&mut self.input, lower);
                    self.error = None;
                } else if c == 'x' || c == 'X' {
                    let s = self.input.as_str();
                    let v = chars_of(s);
                    if v.len() == 0 || v[0] == '0' {
                        string_push(&mut self.input, 'x');
                    }
                }
                Command::NoOp
            },
            KeyCode::Backspace => {
                string_pop(&mut self.input);
                Command::NoOp
            },
            KeyCode::Enter => match parse_address(self.input.as_str()) {
                Ok(peer) => {
                    proof {
                        let spec_peer = parse_address_spec(old(self).input@)->Ok_0;
                        assert(peer@ == spec_peer);
                        let a = seq_to_addr(spec_peer);
                        assert(a@ == spec_peer);
                        assert(a@ =~= peer@);
                        assert(a == peer);
                    }
                    Command::StartChat(peer)
                },
                Err(e) => {
                    self.error = Some(e);
                    Command::NoOp
                },
            },
            KeyCode::Esc => Command::Back,
            _ => Command::NoOp,
        }
    }
}

} // verus!
