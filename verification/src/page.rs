//! NomadNet pages and a small Micron renderer.
//!
//! The renderer implements the line-level Micron syntax (`#` comments, `\`
//! escapes, `>` headings, `<` depth reset, `` `= `` literal mode, `` `t ``
//! tables, `` `{...} `` partials) and the backtick inline formatting (`!`
//! bold, `*` italic, `_` underline, `` `F `` colours, `` [label`target] ``
//! links, `<field>` inputs). Colours and alignment are stripped; emphasis is
//! collapsed to [`PageStyle::Emphasized`].
//!
//! [`micron`] is the specification of the whole renderer over character
//! sequences: a fold of [`step`] over the input lines, followed by flushing a
//! table that is still open at the end of the page.

use vstd::prelude::*;
use vstd::utf8::{valid_utf8, decode_utf8};

use crate::text::{
    is_ws, trim_end, trim_start, trim, trim_start_matches, trim_end_matches, find_from,
    seq_contains, starts_with, spaces, lemma_find_from_bounds, chars_of, string_of, slice_chars,
    append_chars, append_str, trim_end_chars, trim_start_chars, trim_chars,
    trim_start_matches_chars, trim_end_matches_chars, is_blank, find_char_from, starts_with_chars,
    contains_chars, spaces_chars,
};

verus! {

/// A link found on a page, with the label shown to the user and the target
/// address/path to navigate to.
#[derive(Debug, PartialEq, Eq)]
pub struct Link {
    /// Text displayed for the link.
    pub label: String,
    /// The `rns://<address>/<path>` target of the link.
    pub target: String,
}

/// Visual style of a rendered page line.
#[derive(Debug, Clone, Copy, PartialEq, Eq, Structural)]
pub enum PageStyle {
    /// Plain body text.
    Normal,
    /// A section heading (level 1–4).
    Heading(u8),
    /// Emphasised text (bold/italic/underline).
    Emphasized,
}

/// A single displayable line of a rendered page.
#[derive(Debug, PartialEq, Eq)]
pub struct PageLine {
    pub text: String,
    pub style: PageStyle,
    /// Any links embedded in this line, in display order.
    pub links: Vec<Link>,
}

/// A fetched NomadNet page.
#[derive(Debug)]
pub struct Page {
    /// Human readable source (node address) of this page.
    pub source: String,
    /// Page title (first heading), if any.
    pub title: String,
    /// Raw page bytes (Micron markup).
    pub raw: Vec<u8>,
    lines: Vec<PageLine>,
}

/// Abstract value of a [`Page`].
pub struct PageModel {
    pub source: Seq<char>,
    pub title: Seq<char>,
    pub raw: Seq<u8>,
    pub lines: Seq<LineModel>,
}

impl View for Page {
    type V = PageModel;

    closed spec fn view(&self) -> PageModel {
        PageModel {
            source: self.source@,
            title: self.title@,
            raw: self.raw@,
            lines: lines_view(self.lines@),
        }
    }
}

/// Abstract value of a [`Link`].
pub struct LinkModel {
    pub label: Seq<char>,
    pub target: Seq<char>,
}

/// Abstract value of a [`PageLine`].
pub struct LineModel {
    pub text: Seq<char>,
    pub style: PageStyle,
    pub links: Seq<LinkModel>,
}

impl View for Link {
    type V = LinkModel;

    open spec fn view(&self) -> LinkModel {
        LinkModel { label: self.label@, target: self.target@ }
    }
}

/// The abstract values of a sequence of links.
pub open spec fn links_view(ls: Seq<Link>) -> Seq<LinkModel> {
    ls.map_values(|l: Link| l@)
}

impl View for PageLine {
    type V = LineModel;

    open spec fn view(&self) -> LineModel {
        LineModel { text: self.text@, style: self.style, links: links_view(self.links@) }
    }
}

/// The abstract values of a sequence of page lines.
pub open spec fn lines_view(ls: Seq<PageLine>) -> Seq<LineModel> {
    ls.map_values(|l: PageLine| l@)
}

impl Link {
    /// A copy of this link.
    pub fn copy(&self) -> (r: Link)
        ensures
            r@ == self@,
    {
        Link { label: self.label.clone(), target: self.target.clone() }
    }
}

// ---------------------------------------------------------------------------
// Specification: inline formatting
// ---------------------------------------------------------------------------

/// Result of `char::is_alphanumeric` (Unicode `Alphabetic` or `Numeric`).
pub uninterp spec fn char_is_alphanumeric(c: char) -> bool;

/// Whether `c` is an ASCII letter or digit.
pub open spec fn is_ascii_alnum(c: char) -> bool {
    ('a' <= c <= 'z') || ('A' <= c <= 'Z') || ('0' <= c <= '9')
}

/// std's `char::is_alphanumeric`: true for characters with the Unicode
/// `Alphabetic` or `Numeric` property. Stated here: the result is the named
/// value, and ASCII letters and digits are alphanumeric while other ASCII
/// characters are not (as the documentation's definition gives).
#[verifier::external_body]
fn is_alphanumeric(c: char) -> (r: bool)
    ensures
        r == char_is_alphanumeric(c),
        (c as u32) < 0x80 ==> r == is_ascii_alnum(c),
{
    c.is_alphanumeric()
}

/// Index just past a colour directive (`Fxxx`, `FTxxxxxx`, `B...`) whose
/// letter is at `i`.
pub open spec fn skip_color_spec(s: Seq<char>, i: int) -> int {
    if i + 1 < s.len() && s[i + 1] == 'T' {
        i + 8
    } else if i + 4 <= s.len() {
        i + 4
    } else {
        i + 1
    }
}

/// Whether `c` may appear in an anchor name.
pub open spec fn anchor_char(c: char) -> bool {
    char_is_alphanumeric(c) || c == '_' || c == '-'
}

/// First index at or after `j` that does not hold an anchor character.
pub open spec fn skip_anchor(s: Seq<char>, j: int) -> int
    decreases s.len() - j,
{
    if j < 0 || j >= s.len() {
        j
    } else if anchor_char(s[j]) {
        skip_anchor(s, j + 1)
    } else {
        j
    }
}

/// An inline field `<name`value>` starting at `i`: the index after it and
/// the text with the field's value appended. An unterminated field ends the
/// line and shows nothing.
pub open spec fn field_step(s: Seq<char>, i: int, text: Seq<char>) -> (int, Seq<char>) {
    let bt = find_from(s, i + 1, '`');
    let cl = find_from(s, bt + 1, '>');
    if bt >= s.len() || cl >= s.len() {
        (s.len() as int, text)
    } else {
        (cl + 1, text + s.subrange(bt + 1, cl))
    }
}

/// Normalise a link target to a navigable `rns://` URL where possible:
/// `nomadnetwork://` becomes `rns://`, absolute URLs and anchors stay as
/// they are, and relative paths are resolved against the source node.
pub open spec fn normalize_target_spec(t: Seq<char>, src: Seq<char>) -> Seq<char> {
    if starts_with(t, "nomadnetwork://"@) {
        "rns://"@ + t.subrange("nomadnetwork://"@.len() as int, t.len() as int)
    } else if starts_with(t, "rns://"@) || starts_with(t, "#"@) || seq_contains(t, "://"@) {
        t
    } else {
        "rns://"@ + src + "/"@ + trim_start_matches(t, '/')
    }
}

/// Label and target of a link whose brackets enclose `s[i+1..end]`.
pub open spec fn link_parts(s: Seq<char>, i: int, end: int) -> (Seq<char>, Seq<char>) {
    let inner = s.subrange(i + 1, end);
    if end + 1 < s.len() && s[end + 1] == '(' {
        let close = find_from(s, end + 2, ')');
        if close < s.len() {
            (inner, s.subrange(end + 2, close))
        } else {
            (inner, Seq::empty())
        }
    } else {
        let k = find_from(inner, 0, '`');
        if k >= inner.len() {
            (inner, inner)
        } else {
            (inner.subrange(0, k), inner.subrange(k + 1, inner.len() as int))
        }
    }
}

/// Index just past a link whose closing bracket is at `end`: past the `)`
/// of a Markdown-style `[label](target)`, else past the bracket.
pub open spec fn link_end(s: Seq<char>, end: int) -> int {
    if end + 1 < s.len() && s[end + 1] == '(' && find_from(s, end + 2, ')') < s.len() {
        find_from(s, end + 2, ')') + 1
    } else {
        end + 1
    }
}

/// A link `[label`target]`, `[target]` or `[label](target)` starting at `i`:
/// the index just past the link (see [`link_end`]), the text with the label appended
/// and the links with the new link appended. A `[` without a closing bracket
/// is plain text; a bracket without a target shows its content.
pub open spec fn link_step(
    s: Seq<char>,
    src: Seq<char>,
    i: int,
    text: Seq<char>,
    links: Seq<LinkModel>,
) -> (int, Seq<char>, Seq<LinkModel>) {
    let end = find_from(s, i + 1, ']');
    if end >= s.len() {
        (i + 1, text.push('['), links)
    } else {
        let inner = s.subrange(i + 1, end);
        let label = link_parts(s, i, end).0;
        let target = link_parts(s, i, end).1;
        if trim(target).len() == 0 {
            (end + 1, text + inner, links)
        } else {
            let t = normalize_target_spec(target, src);
            let l = if trim(label).len() == 0 {
                t
            } else {
                label
            };
            (link_end(s, end), text + trim(l), links.push(LinkModel { label: trim(l), target: t }))
        }
    }
}

/// The inline formatter from index `i`, in formatting mode `fmt`, with a
/// pending escape `esc`, and the visible text, emphasis flag and links
/// gathered so far.
pub open spec fn inline_go(
    s: Seq<char>,
    src: Seq<char>,
    i: int,
    fmt: bool,
    esc: bool,
    text: Seq<char>,
    emph: bool,
    links: Seq<LinkModel>,
) -> (Seq<char>, bool, Seq<LinkModel>)
    decreases s.len() + 8 - i,
{
    if i < 0 || i >= s.len() {
        (text, emph, links)
    } else {
        let c = s[i];
        if fmt {
            if c == '_' || c == '!' || c == '*' {
                inline_go(s, src, i + 1, false, esc, text, true, links)
            } else if c == 'F' || c == 'B' {
                inline_go(s, src, skip_color_spec(s, i), false, esc, text, emph, links)
            } else if c == ':' {
                proof {
                    lemma_skip_anchor(s, i + 1);
                }
                inline_go(s, src, skip_anchor(s, i + 1), false, esc, text, emph, links)
            } else if c == '<' {
                proof {
                    lemma_field_step(s, i, text);
                }
                let r = field_step(s, i, text);
                inline_go(s, src, r.0, false, esc, r.1, emph, links)
            } else if c == '[' {
                proof {
                    lemma_link_step_index(s, src, i, text, links);
                }
                let r = link_step(s, src, i, text, links);
                inline_go(s, src, r.0, false, esc, r.1, emph, r.2)
            } else {
                inline_go(s, src, i + 1, false, esc, text, emph, links)
            }
        } else {
            if esc {
                inline_go(s, src, i + 1, false, false, text.push(c), emph, links)
            } else if c == '\\' {
                inline_go(s, src, i + 1, false, true, text, emph, links)
            } else if c == '`' {
                if i + 1 < s.len() && s[i + 1] == '`' {
                    inline_go(s, src, i + 2, false, esc, text, emph, links)
                } else {
                    inline_go(s, src, i + 1, true, esc, text, emph, links)
                }
            } else if c == '[' {
                proof {
                    lemma_link_step_index(s, src, i, text, links);
                }
                let r = link_step(s, src, i, text, links);
                inline_go(s, src, r.0, false, esc, r.1, emph, r.2)
            } else {
                inline_go(s, src, i + 1, false, esc, text.push(c), emph, links)
            }
        }
    }
}

/// Inline formatting of a whole line: the visible text, whether any
/// emphasis was applied, and the links found.
pub open spec fn inline_spec(s: Seq<char>, src: Seq<char>) -> (Seq<char>, bool, Seq<LinkModel>) {
    inline_go(s, src, 0, false, false, Seq::empty(), false, Seq::empty())
}

/// Whether `c` needs no formatting outside a directive: it is not a
/// backtick, a backslash or an opening bracket.
pub open spec fn plain_char(c: char) -> bool {
    c != '`' && c != '\\' && c != '['
}

/// Outside a directive, plain characters are shown as they are.
proof fn lemma_inline_plain(
    s: Seq<char>,
    src: Seq<char>,
    j: int,
    text: Seq<char>,
    emph: bool,
    links: Seq<LinkModel>,
)
    requires
        0 <= j <= s.len(),
        forall|k: int| j <= k < s.len() ==> plain_char(#[trigger] s[k]),
    ensures
        inline_go(s, src, j, false, false, text, emph, links) == (
            text + s.subrange(j, s.len() as int),
            emph,
            links,
        ),
    decreases s.len() - j,
{
    if j < s.len() {
        assert(plain_char(s[j]));
        lemma_inline_plain(s, src, j + 1, text.push(s[j]), emph, links);
        assert(text.push(s[j]) + s.subrange(j + 1, s.len() as int) =~= text + s.subrange(
            j,
            s.len() as int,
        ));
    } else {
        assert(text + s.subrange(j, s.len() as int) =~= text);
    }
}

/// A colour directive, background `` `Bxyz `` as well as foreground
/// `` `Fxyz ``, shows nothing: plain text behind one reads as that text
/// alone, with no emphasis and no links, exactly as the text on its own.
pub proof fn lemma_color_directive_hidden(
    d: char,
    x: char,
    y: char,
    z: char,
    t: Seq<char>,
    src: Seq<char>,
)
    requires
        d == 'B' || d == 'F',
        x != 'T',
        forall|k: int| 0 <= k < t.len() ==> plain_char(#[trigger] t[k]),
    ensures
        inline_spec(seq!['`', d, x, y, z] + t, src) == (t, false, Seq::<LinkModel>::empty()),
        inline_spec(t, src) == (t, false, Seq::<LinkModel>::empty()),
{
    let s = seq!['`', d, x, y, z] + t;
    let e = Seq::<char>::empty();
    let nl = Seq::<LinkModel>::empty();
    assert(s[0] == '`' && s[1] == d && s[2] == x);
    assert forall|k: int| 5 <= k < s.len() implies plain_char(#[trigger] s[k]) by {
        assert(s[k] == t[k - 5]);
    }
    lemma_inline_plain(s, src, 5, e, false, nl);
    assert(skip_color_spec(s, 1) == 5);
    assert(inline_go(s, src, 1, true, false, e, false, nl) == inline_go(s, src, 5, false, false, e, false, nl));
    assert(inline_go(s, src, 0, false, false, e, false, nl) == inline_go(s, src, 1, true, false, e, false, nl));
    assert(e + s.subrange(5, s.len() as int) =~= t);
    lemma_inline_plain(t, src, 0, e, false, nl);
    assert(e + t.subrange(0, t.len() as int) =~= t);
}

/// The style that an emphasis flag gives a line.
pub open spec fn emph_style(emph: bool) -> PageStyle {
    if emph {
        PageStyle::Emphasized
    } else {
        PageStyle::Normal
    }
}

pub proof fn lemma_skip_anchor(s: Seq<char>, j: int)
    requires
        0 <= j <= s.len(),
    ensures
        j <= skip_anchor(s, j) <= s.len(),
    decreases s.len() - j,
{
    if j < s.len() && anchor_char(s[j]) {
        lemma_skip_anchor(s, j + 1);
    }
}

pub proof fn lemma_field_step(s: Seq<char>, i: int, text: Seq<char>)
    requires
        0 <= i < s.len(),
    ensures
        i < field_step(s, i, text).0 <= s.len(),
{
    lemma_find_from_bounds(s, i + 1, '`');
    let bt = find_from(s, i + 1, '`');
    lemma_find_from_bounds(s, bt + 1, '>');
}

pub proof fn lemma_link_step_index(
    s: Seq<char>,
    src: Seq<char>,
    i: int,
    text: Seq<char>,
    links: Seq<LinkModel>,
)
    requires
        0 <= i < s.len(),
    ensures
        i < link_step(s, src, i, text, links).0 <= s.len(),
{
    lemma_find_from_bounds(s, i + 1, ']');
    let end = find_from(s, i + 1, ']');
    if end + 2 <= s.len() {
        lemma_find_from_bounds(s, end + 2, ')');
    }
}

// ---------------------------------------------------------------------------
// Specification: tables
// ---------------------------------------------------------------------------

/// Escape-aware split of a row body at `|`, each cell trimmed.
pub open spec fn split_go(
    s: Seq<char>,
    i: int,
    cells: Seq<Seq<char>>,
    cur: Seq<char>,
    esc: bool,
) -> Seq<Seq<char>>
    decreases s.len() - i,
{
    if i < 0 || i >= s.len() {
        cells.push(trim(cur))
    } else {
        let c = s[i];
        if esc {
            split_go(s, i + 1, cells, cur.push(c), false)
        } else if c == '\\' {
            split_go(s, i + 1, cells, cur, true)
        } else if c == '|' {
            split_go(s, i + 1, cells.push(trim(cur)), Seq::empty(), false)
        } else {
            split_go(s, i + 1, cells, cur.push(c), false)
        }
    }
}

/// The body of a table row: trimmed, without leading and trailing `|`.
pub open spec fn row_body(row: Seq<char>) -> Seq<char> {
    trim_end_matches(trim_start_matches(trim(row), '|'), '|')
}

/// The cells of a table row, honouring `\` escapes.
pub open spec fn split_cells_spec(row: Seq<char>) -> Seq<Seq<char>> {
    split_go(row_body(row), 0, Seq::empty(), Seq::empty(), false)
}

/// Whether a cell is an alignment marker such as `---`, `:---` or `:-:`.
pub open spec fn cell_is_rule(cell: Seq<char>) -> bool {
    let c = trim_end_matches(trim_start_matches(trim(cell), ':'), ':');
    c.len() > 0 && forall|k: int| 0 <= k < c.len() ==> c[k] == '-'
}

/// Whether a row is a table alignment marker row (`|---|:---:|`).
pub open spec fn is_alignment_row_spec(row: Seq<char>) -> bool {
    let cells = split_cells_spec(row);
    forall|k: int| 0 <= k < cells.len() ==> cell_is_rule(#[trigger] cells[k])
}

/// `:` when `present`, else nothing.
pub open spec fn opt_colon(present: bool) -> Seq<char> {
    if present {
        seq![':']
    } else {
        Seq::empty()
    }
}

/// `n` dashes, with a colon before them when `lead` and after them when
/// `trail`.
pub open spec fn marker_text(lead: bool, n: nat, trail: bool) -> Seq<char> {
    opt_colon(lead) + Seq::new(n, |_k: int| '-') + opt_colon(trail)
}

/// Whether a cell is a Markdown alignment marker: one or more dashes,
/// with an optional colon before and after (`---`, `:---`, `---:`, `:-:`).
pub open spec fn alignment_marker(c: Seq<char>) -> bool {
    exists|lead: bool, n: nat, trail: bool| n >= 1 && c == #[trigger] marker_text(lead, n, trail)
}

/// An alignment marker counts as a rule cell.
proof fn lemma_marker_is_rule(c: Seq<char>)
    requires
        alignment_marker(c),
    ensures
        cell_is_rule(c),
{
    let (lead, n, trail) = choose|lead: bool, n: nat, trail: bool|
        n >= 1 && c == #[trigger] marker_text(lead, n, trail);
    let dashes = Seq::new(n, |_k: int| '-');
    assert(!is_ws(c[0]) && !is_ws(c.last()));
    assert(trim_end(c) == c);
    assert(trim_start(c) == c);
    assert(trim(c) == c);
    let body = dashes + opt_colon(trail);
    if lead {
        assert(c.drop_first() =~= body);
        assert(trim_start_matches(c, ':') == trim_start_matches(body, ':'));
    } else {
        assert(c =~= body);
    }
    assert(body[0] == '-');
    assert(trim_start_matches(body, ':') == body);
    if trail {
        assert(body.drop_last() =~= dashes);
        assert(trim_end_matches(body, ':') == trim_end_matches(dashes, ':'));
    } else {
        assert(body =~= dashes);
    }
    assert(dashes.last() == '-');
    assert(trim_end_matches(dashes, ':') == dashes);
}

/// The alignment row of a table is not shown: in a table whose second row
/// holds only alignment markers (`|:---|---:|`), the header row is shown
/// emphasised and the row after the markers as an ordinary row, with
/// nothing for the marker row itself.
pub proof fn lemma_alignment_row_hidden(
    header: Seq<char>,
    markers: Seq<char>,
    data: Seq<char>,
    lines: Seq<LineModel>,
)
    requires
        forall|k: int|
            0 <= k < split_cells_spec(markers).len() ==> alignment_marker(
                #[trigger] split_cells_spec(markers)[k],
            ),
    ensures
        table_go(seq![header, markers, data], 0, lines) == push_line_spec(
            push_line_spec(
                lines,
                join_cells(split_cells_spec(header), " | "@),
                PageStyle::Emphasized,
                Seq::empty(),
            ),
            join_cells(split_cells_spec(data), " | "@),
            PageStyle::Normal,
            Seq::empty(),
        ),
{
    let rows = seq![header, markers, data];
    assert forall|k: int| 0 <= k < split_cells_spec(markers).len() implies cell_is_rule(
        #[trigger] split_cells_spec(markers)[k],
    ) by {
        lemma_marker_is_rule(split_cells_spec(markers)[k]);
    }
    assert(is_alignment_row_spec(rows[1]));
    let l1 = push_line_spec(
        lines,
        join_cells(split_cells_spec(header), " | "@),
        PageStyle::Emphasized,
        Seq::empty(),
    );
    let l2 = push_line_spec(l1, join_cells(split_cells_spec(data), " | "@), PageStyle::Normal, Seq::empty());
    assert(table_go(rows, 3, l2) == l2);
    assert(table_go(rows, 2, l1) == l2);
    assert(table_go(rows, 1, l1) == l2);
}

/// `cells` joined with `sep` between neighbours.
pub open spec fn join_cells(cells: Seq<Seq<char>>, sep: Seq<char>) -> Seq<char>
    decreases cells.len(),
{
    if cells.len() == 0 {
        Seq::empty()
    } else if cells.len() == 1 {
        cells[0]
    } else {
        join_cells(cells.drop_last(), sep) + sep + cells.last()
    }
}

/// Append `text` as a line unless it is blank.
pub open spec fn push_line_spec(
    lines: Seq<LineModel>,
    text: Seq<char>,
    style: PageStyle,
    links: Seq<LinkModel>,
) -> Seq<LineModel> {
    if trim(text).len() == 0 {
        lines
    } else {
        lines.push(LineModel { text, style, links })
    }
}

/// The lines of a buffered table from row `k` on: the header row is
/// emphasised, the alignment row (second row) is skipped, cells are joined
/// with ` | `.
pub open spec fn table_go(rows: Seq<Seq<char>>, k: int, lines: Seq<LineModel>) -> Seq<
    LineModel,
>
    decreases rows.len() - k,
{
    if k < 0 || k >= rows.len() {
        lines
    } else if k == 1 && is_alignment_row_spec(rows[1]) {
        table_go(rows, k + 1, lines)
    } else {
        let text = join_cells(split_cells_spec(rows[k]), " | "@);
        let style = if k == 0 {
            PageStyle::Emphasized
        } else {
            PageStyle::Normal
        };
        table_go(rows, k + 1, push_line_spec(lines, text, style, Seq::empty()))
    }
}

// ---------------------------------------------------------------------------
// Specification: lines and the page
// ---------------------------------------------------------------------------

/// `l` without a final carriage return.
pub open spec fn strip_cr(l: Seq<char>) -> Seq<char> {
    if l.len() > 0 && l.last() == '\r' {
        l.drop_last()
    } else {
        l
    }
}

/// The lines of `s` from index `i` (as `str::lines`): split at `\n`, a
/// `\r` before the `\n` dropped, no empty line after a final `\n`.
pub open spec fn lines_from(s: Seq<char>, i: int) -> Seq<Seq<char>>
    decreases s.len() - i,
{
    if i < 0 || i >= s.len() {
        Seq::empty()
    } else {
        let j = find_from(s, i, '\n');
        proof {
            lemma_find_from_bounds(s, i, '\n');
        }
        if j >= s.len() {
            seq![s.subrange(i, s.len() as int)]
        } else {
            seq![strip_cr(s.subrange(i, j))] + lines_from(s, j + 1)
        }
    }
}

/// Number of leading occurrences of `c` in `s`.
pub open spec fn count_leading(s: Seq<char>, c: char) -> nat
    decreases s.len(),
{
    if s.len() > 0 && s[0] == c {
        1 + count_leading(s.drop_first(), c)
    } else {
        0
    }
}

/// `text` prefixed with the indentation of section depth `depth`.
pub open spec fn indent_spec(text: Seq<char>, depth: nat) -> Seq<char> {
    let d: nat = if depth == 0 {
        0
    } else {
        (depth - 1) as nat
    };
    let levels: nat = if d > 6 {
        6
    } else {
        d
    };
    spaces(levels * 2) + trim_start(text)
}

/// The placeholder shown for a partial `` `{target`...} ``.
pub open spec fn partial_text(line: Seq<char>) -> Seq<char> {
    let rest = line.subrange(2, line.len() as int);
    let target = trim(rest.subrange(0, find_from(rest, 0, '`')));
    if target.len() == 0 {
        "[partial]"@
    } else {
        "[partial: "@ + target + "]"@
    }
}

/// State of the renderer between lines.
pub struct RenderState {
    pub title: Seq<char>,
    pub lines: Seq<LineModel>,
    pub literal: bool,
    pub depth: nat,
    pub table_mode: bool,
    pub rows: Seq<Seq<char>>,
}

/// The state before the first line.
pub open spec fn initial_state() -> RenderState {
    RenderState {
        title: Seq::empty(),
        lines: Seq::empty(),
        literal: false,
        depth: 0,
        table_mode: false,
        rows: Seq::empty(),
    }
}

/// The renderer's effect of one input line.
pub open spec fn step(st: RenderState, raw_line: Seq<char>, src: Seq<char>) -> RenderState {
    let line = trim_end(raw_line);
    let trimmed = trim(line);
    if trimmed == "`="@ {
        RenderState { literal: !st.literal, ..st }
    } else if trimmed.len() >= 2 && trimmed[0] == '`' && trimmed[1] == 't' {
        if st.table_mode {
            RenderState {
                lines: table_go(st.rows, 0, st.lines),
                table_mode: false,
                rows: Seq::empty(),
                ..st
            }
        } else {
            RenderState { table_mode: true, rows: Seq::empty(), ..st }
        }
    } else if st.table_mode {
        RenderState { rows: st.rows.push(line), ..st }
    } else if st.literal {
        RenderState {
            lines: push_line_spec(st.lines, trimmed, PageStyle::Normal, Seq::empty()),
            ..st
        }
    } else if line.len() > 0 && line[0] == '#' {
        st
    } else if line.len() > 0 && line[0] == '\\' {
        RenderState {
            lines: push_line_spec(
                st.lines,
                line.subrange(1, line.len() as int),
                PageStyle::Normal,
                Seq::empty(),
            ),
            ..st
        }
    } else if line.len() >= 2 && line[0] == '`' && line[1] == '{' {
        RenderState {
            lines: push_line_spec(st.lines, partial_text(line), PageStyle::Emphasized, Seq::empty()),
            ..st
        }
    } else if line == "<"@ {
        RenderState { depth: 0, ..st }
    } else {
        let leading = count_leading(line, '>');
        if leading > 0 {
            let text = trim(line.subrange(leading as int, line.len() as int));
            let r = inline_spec(text, src);
            if seq_contains(text, "`<"@) {
                RenderState {
                    lines: push_line_spec(st.lines, indent_spec(r.0, leading), emph_style(r.1), r.2),
                    depth: leading,
                    ..st
                }
            } else {
                let level: u8 = if leading > 4 {
                    4
                } else {
                    leading as u8
                };
                RenderState {
                    title: if st.title.len() == 0 {
                        text
                    } else {
                        st.title
                    },
                    lines: push_line_spec(st.lines, r.0, PageStyle::Heading(level), r.2),
                    depth: leading,
                    ..st
                }
            }
        } else {
            let r = inline_spec(line, src);
            RenderState {
                lines: push_line_spec(st.lines, indent_spec(r.0, st.depth), emph_style(r.1), r.2),
                ..st
            }
        }
    }
}

/// The state after the first `n` of `ls`.
pub open spec fn render_upto(ls: Seq<Seq<char>>, n: int, src: Seq<char>) -> RenderState
    decreases n,
{
    if n <= 0 {
        initial_state()
    } else {
        step(render_upto(ls, n - 1, src), ls[n - 1], src)
    }
}

/// The rendering of Micron markup `raw` from node `src`: the page title
/// (first heading) and the displayable lines. A table still open at the
/// end of the page is flushed.
pub open spec fn micron(raw: Seq<char>, src: Seq<char>) -> (Seq<char>, Seq<LineModel>) {
    let ls = lines_from(raw, 0);
    let st = render_upto(ls, ls.len() as int, src);
    if st.table_mode {
        (st.title, table_go(st.rows, 0, st.lines))
    } else {
        (st.title, st.lines)
    }
}

// ---------------------------------------------------------------------------
// Implementation: inline formatting
// ---------------------------------------------------------------------------

/// The abstract values of a sequence of character vectors.
pub open spec fn rows_view(v: Seq<Vec<char>>) -> Seq<Seq<char>> {
    v.map_values(|r: Vec<char>| r@)
}

/// Index just past a colour directive at `i`, capped at the end of `s`.
fn skip_color(s: &Vec<char>, i: usize) -> (r: usize)
    requires
        i < s.len(),
    ensures
        r as int == if skip_color_spec(s@, i as int) > s.len() {
            s.len() as int
        } else {
            skip_color_spec(s@, i as int)
        },
{
    let len = s.len();
    if i + 1 < len && s[i + 1] == 'T' {
        if len - i >= 8 {
            i + 8
        } else {
            len
        }
    } else if len - i >= 4 {
        i + 4
    } else {
        i + 1
    }
}

/// First index at or after `j` that does not hold an anchor character.
fn skip_anchor_chars(s: &Vec<char>, j: usize) -> (r: usize)
    requires
        j <= s.len(),
    ensures
        r as int == skip_anchor(s@, j as int),
        j <= r <= s.len(),
{
    let mut k = j;
    while k < s.len() && (is_alphanumeric(s[k]) || s[k] == '_' || s[k] == '-')
        invariant
            j <= k <= s.len(),
            skip_anchor(s@, j as int) == skip_anchor(s@, k as int),
        decreases s.len() - k,
    {
        k += 1;
    }
    k
}

/// Parse an inline field `<name`value>` whose `<` is at `i`, appending its
/// displayed value to `text`. Returns the index after the field.
fn parse_field(s: &Vec<char>, i: usize, text: &mut Vec<char>) -> (r: usize)
    requires
        i < s.len(),
    ensures
        (r as int, final(text)@) == field_step(s@, i as int, old(text)@),
        i < r <= s.len(),
{
    proof {
        lemma_field_step(s@, i as int, old(text)@);
        lemma_find_from_bounds(s@, i + 1, '`');
    }
    let bt = find_char_from(s, i + 1, '`');
    if bt >= s.len() {
        return s.len();
    }
    proof {
        lemma_find_from_bounds(s@, bt + 1, '>');
    }
    let cl = find_char_from(s, bt + 1, '>');
    if cl >= s.len() {
        return s.len();
    }
    let value = slice_chars(s, bt + 1, cl);
    append_chars(text, &value);
    cl + 1
}

/// Normalise a link target to a navigable `rns://` URL where possible.
fn normalize_target(t: &Vec<char>, src: &Vec<char>) -> (r: Vec<char>)
    ensures
        r@ == normalize_target_spec(t@, src@),
{
    let nomad = chars_of("nomadnetwork://");
    if starts_with_chars(t, &nomad) {
        let mut r = chars_of("rns://");
        let rest = slice_chars(t, nomad.len(), t.len());
        append_chars(&mut r, &rest);
        return r;
    }
    let rns = chars_of("rns://");
    let hash = chars_of("#");
    let scheme = chars_of("://");
    if starts_with_chars(t, &rns) || starts_with_chars(t, &hash) || contains_chars(t, &scheme) {
        return slice_chars(t, 0, t.len());
    }
    let path = trim_start_matches_chars(t, '/');
    let mut r = chars_of("rns://");
    append_chars(&mut r, src);
    append_str(&mut r, "/");
    append_chars(&mut r, &path);
    r
}

/// Parse a link whose `[` is at `i`, appending its label to `text` and the
/// link to `links`. Returns the index just past the link.
fn parse_link(
    s: &Vec<char>,
    src: &Vec<char>,
    i: usize,
    text: &mut Vec<char>,
    links: &mut Vec<Link>,
) -> (r: usize)
    requires
        i < s.len(),
    ensures
        (r as int, final(text)@, links_view(final(links)@)) == link_step(
            s@,
            src@,
            i as int,
            old(text)@,
            links_view(old(links)@),
        ),
        i < r <= s.len(),
{
    proof {
        lemma_link_step_index(s@, src@, i as int, old(text)@, links_view(old(links)@));
        lemma_find_from_bounds(s@, i + 1, ']');
    }
    let end = find_char_from(s, i + 1, ']');
    if end >= s.len() {
        text.push('[');
        return i + 1;
    }
    let inner = slice_chars(s, i + 1, end);
    let label: Vec<char>;
    let target: Vec<char>;
    let mut past = end + 1;
    if end + 1 < s.len() && s[end + 1] == '(' {
        proof {
            lemma_find_from_bounds(s@, end + 2, ')');
        }
        let close = find_char_from(s, end + 2, ')');
        if close < s.len() {
            label = slice_chars(&inner, 0, inner.len());
            target = slice_chars(s, end + 2, close);
            past = close + 1;
        } else {
            label = slice_chars(&inner, 0, inner.len());
            target = Vec::new();
        }
    } else {
        proof {
            lemma_find_from_bounds(inner@, 0, '`');
        }
        let k = find_char_from(&inner, 0, '`');
        if k >= inner.len() {
            label = slice_chars(&inner, 0, inner.len());
            target = slice_chars(&inner, 0, inner.len());
        } else {
            label = slice_chars(&inner, 0, k);
            target = slice_chars(&inner, k + 1, inner.len());
        }
    }
    assert(inner@.subrange(0, inner@.len() as int) == inner@);
    assert((label@, target@) == link_parts(s@, i as int, end as int));
    assert(past == link_end(s@, end as int));
    if is_blank(&target) {
        append_chars(text, &inner);
        return end + 1;
    }
    let t = normalize_target(&target, src);
    let l = if is_blank(&label) {
        slice_chars(&t, 0, t.len())
    } else {
        label
    };
    assert(t@.subrange(0, t@.len() as int) == t@);
    let shown = trim_chars(&l);
    append_chars(text, &shown);
    let link = Link { label: string_of(&shown), target: string_of(&t) };
    let ghost before = links@;
    links.push(link);
    proof {
        assert(links_view(links@) =~= links_view(before).push(link@));
    }
    past
}

/// Parse inline formatting on a line, returning the visible text, whether
/// any emphasis was applied, and the links found.
fn inline(s: &Vec<char>, src: &Vec<char>) -> (r: (Vec<char>, bool, Vec<Link>))
    ensures
        (r.0@, r.1, links_view(r.2@)) == inline_spec(s@, src@),
{
    let mut text: Vec<char> = Vec::new();
    let mut links: Vec<Link> = Vec::new();
    let mut i: usize = 0;
    let mut fmt = false;
    let mut esc = false;
    let mut emph = false;
    proof {
        assert(links_view(links@) =~= Seq::<LinkModel>::empty());
    }
    while i < s.len()
        invariant
            i <= s.len(),
            inline_spec(s@, src@) == inline_go(
                s@,
                src@,
                i as int,
                fmt,
                esc,
                text@,
                emph,
                links_view(links@),
            ),
        decreases s.len() - i,
    {
        let c = s[i];
        if fmt {
            if c == '_' || c == '!' || c == '*' {
                emph = true;
                i += 1;
            } else if c == 'F' || c == 'B' {
                let ghost old_i = i as int;
                i = skip_color(s, i);
                proof {
                    let sc = skip_color_spec(s@, old_i);
                    let lv = links_view(links@);
                    assert(inline_go(s@, src@, sc, false, esc, text@, emph, lv) == (text@, emph, lv)
                        || sc <= s.len());
                }
            } else if c == ':' {
                i = skip_anchor_chars(s, i + 1);
            } else if c == '<' {
                i = parse_field(s, i, &mut text);
            } else if c == '[' {
                i = parse_link(s, src, i, &mut text, &mut links);
            } else {
                i += 1;
            }
            fmt = false;
        } else {
            if esc {
                text.push(c);
                esc = false;
                i += 1;
            } else if c == '\\' {
                esc = true;
                i += 1;
            } else if c == '`' {
                if i + 1 < s.len() && s[i + 1] == '`' {
                    i += 2;
                } else {
                    fmt = true;
                    i += 1;
                }
            } else if c == '[' {
                i = parse_link(s, src, i, &mut text, &mut links);
            } else {
                text.push(c);
                i += 1;
            }
        }
    }
    (text, emph, links)
}

// ---------------------------------------------------------------------------
// Implementation: tables
// ---------------------------------------------------------------------------

/// Split a table row into cells, honouring `\` escapes and stripping a
/// leading/trailing `|`.
fn split_cells(row: &Vec<char>) -> (r: Vec<Vec<char>>)
    ensures
        rows_view(r@) == split_cells_spec(row@),
{
    let t = trim_chars(row);
    let t2 = trim_start_matches_chars(&t, '|');
    let body = trim_end_matches_chars(&t2, '|');
    let mut cells: Vec<Vec<char>> = Vec::new();
    let mut cur: Vec<char> = Vec::new();
    let mut esc = false;
    let mut i: usize = 0;
    proof {
        assert(rows_view(cells@) =~= Seq::<Seq<char>>::empty());
    }
    while i < body.len()
        invariant
            i <= body.len(),
            body@ == row_body(row@),
            split_cells_spec(row@) == split_go(body@, i as int, rows_view(cells@), cur@, esc),
        decreases body.len() - i,
    {
        let c = body[i];
        if esc {
            cur.push(c);
            esc = false;
        } else if c == '\\' {
            esc = true;
        } else if c == '|' {
            let cell = trim_chars(&cur);
            let ghost before = cells@;
            cells.push(cell);
            proof {
                assert(rows_view(cells@) =~= rows_view(before).push(cell@));
            }
            cur = Vec::new();
        } else {
            cur.push(c);
        }
        i += 1;
    }
    let cell = trim_chars(&cur);
    let ghost before = cells@;
    cells.push(cell);
    proof {
        assert(rows_view(cells@) =~= rows_view(before).push(cell@));
    }
    cells
}

/// Whether a cell is an alignment marker such as `---` or `:-:`.
fn cell_is_rule_chars(cell: &Vec<char>) -> (r: bool)
    ensures
        r == cell_is_rule(cell@),
{
    let t = trim_chars(cell);
    let t2 = trim_start_matches_chars(&t, ':');
    let c = trim_end_matches_chars(&t2, ':');
    if c.len() == 0 {
        return false;
    }
    let mut k: usize = 0;
    while k < c.len()
        invariant
            k <= c.len(),
            c@ == trim_end_matches(trim_start_matches(trim(cell@), ':'), ':'),
            forall|j: int| 0 <= j < k ==> c@[j] == '-',
        decreases c.len() - k,
    {
        if c[k] != '-' {
            assert(c@[k as int] != '-');
            return false;
        }
        k += 1;
    }
    true
}

/// Whether a row is a table alignment marker row (`|---|:---:|`).
fn is_alignment_row(row: &Vec<char>) -> (r: bool)
    ensures
        r == is_alignment_row_spec(row@),
{
    let cells = split_cells(row);
    let mut k: usize = 0;
    while k < cells.len()
        invariant
            k <= cells.len(),
            rows_view(cells@) == split_cells_spec(row@),
            forall|j: int| 0 <= j < k ==> cell_is_rule(#[trigger] split_cells_spec(row@)[j]),
        decreases cells.len() - k,
    {
        if !cell_is_rule_chars(&cells[k]) {
            assert(split_cells_spec(row@)[k as int] == cells@[k as int]@);
            return false;
        }
        assert(split_cells_spec(row@)[k as int] == cells@[k as int]@);
        k += 1;
    }
    true
}

/// `cells` joined with `sep` between neighbours.
fn join(cells: &Vec<Vec<char>>, sep: &Vec<char>) -> (r: Vec<char>)
    ensures
        r@ == join_cells(rows_view(cells@), sep@),
{
    let mut out: Vec<char> = Vec::new();
    let mut k: usize = 0;
    while k < cells.len()
        invariant
            k <= cells.len(),
            out@ == join_cells(rows_view(cells@).subrange(0, k as int), sep@),
        decreases cells.len() - k,
    {
        let ghost pre = rows_view(cells@).subrange(0, k as int);
        let ghost post = rows_view(cells@).subrange(0, k + 1);
        assert(post.drop_last() =~= pre);
        if k > 0 {
            append_chars(&mut out, sep);
        }
        append_chars(&mut out, &cells[k]);
        proof {
            if k == 0 {
                assert(out@ =~= post[0]);
            }
        }
        k += 1;
    }
    assert(rows_view(cells@).subrange(0, cells.len() as int) =~= rows_view(cells@));
    out
}

/// Append `text` as a line unless it is blank.
fn push_line(lines: &mut Vec<PageLine>, text: Vec<char>, style: PageStyle, links: Vec<Link>)
    ensures
        lines_view(final(lines)@) == push_line_spec(
            lines_view(old(lines)@),
            text@,
            style,
            links_view(links@),
        ),
{
    if is_blank(&text) {
        return;
    }
    let line = PageLine { text: string_of(&text), style, links };
    let ghost before = lines@;
    lines.push(line);
    proof {
        assert(lines_view(lines@) =~= lines_view(before).push(line@));
    }
}

/// Render a buffered table (rows of `|`-separated cells) as text lines.
fn render_table(rows: &Vec<Vec<char>>, lines: &mut Vec<PageLine>)
    ensures
        lines_view(final(lines)@) == table_go(rows_view(rows@), 0, lines_view(old(lines)@)),
{
    let sep = chars_of(" | ");
    let mut idx: usize = 0;
    while idx < rows.len()
        invariant
            idx <= rows.len(),
            sep@ == " | "@,
            table_go(rows_view(rows@), 0, lines_view(old(lines)@)) == table_go(
                rows_view(rows@),
                idx as int,
                lines_view(lines@),
            ),
        decreases rows.len() - idx,
    {
        assert(rows_view(rows@)[idx as int] == rows@[idx as int]@);
        if idx == 1 && is_alignment_row(&rows[idx]) {
            idx += 1;
            continue;
        }
        let cells = split_cells(&rows[idx]);
        if cells.len() == 0 {
            idx += 1;
            continue;
        }
        let text = join(&cells, &sep);
        if is_blank(&text) {
            idx += 1;
            continue;
        }
        let style = if idx == 0 {
            PageStyle::Emphasized
        } else {
            PageStyle::Normal
        };
        let none: Vec<Link> = Vec::new();
        proof {
            assert(links_view(none@) =~= Seq::<LinkModel>::empty());
        }
        push_line(lines, text, style, none);
        idx += 1;
    }
}

// ---------------------------------------------------------------------------
// Implementation: lines and the page
// ---------------------------------------------------------------------------

/// The lines of `s`, as `str::lines` splits them.
fn split_lines(s: &Vec<char>) -> (r: Vec<Vec<char>>)
    ensures
        rows_view(r@) == lines_from(s@, 0),
{
    let mut out: Vec<Vec<char>> = Vec::new();
    let mut i: usize = 0;
    proof {
        assert(rows_view(out@) =~= Seq::<Seq<char>>::empty());
    }
    while i < s.len()
        invariant
            i <= s.len(),
            lines_from(s@, 0) == rows_view(out@) + lines_from(s@, i as int),
        decreases s.len() - i,
    {
        proof {
            lemma_find_from_bounds(s@, i as int, '\n');
        }
        let j = find_char_from(s, i, '\n');
        let ghost before = out@;
        if j >= s.len() {
            let l = slice_chars(s, i, s.len());
            out.push(l);
            proof {
                assert(rows_view(out@) =~= rows_view(before).push(l@));
                assert(lines_from(s@, s.len() as int) =~= Seq::<Seq<char>>::empty());
                assert(lines_from(s@, i as int) =~= seq![l@]);
                assert(lines_from(s@, 0) =~= rows_view(out@) + lines_from(s@, s.len() as int));
            }
            i = s.len();
        } else {
            let mut l = slice_chars(s, i, j);
            if l.len() > 0 && l[l.len() - 1] == '\r' {
                l.pop();
            }
            out.push(l);
            proof {
                assert(rows_view(out@) =~= rows_view(before).push(l@));
                assert(lines_from(s@, i as int) =~= seq![l@] + lines_from(s@, j + 1));
                assert(lines_from(s@, 0) =~= rows_view(out@) + lines_from(s@, j + 1));
            }
            i = j + 1;
        }
    }
    assert(lines_from(s@, i as int) =~= Seq::<Seq<char>>::empty());
    assert(lines_from(s@, 0) =~= rows_view(out@));
    out
}

/// Number of leading occurrences of `c` in `v`.
fn count_leading_chars(v: &Vec<char>, c: char) -> (r: usize)
    ensures
        r as nat == count_leading(v@, c),
        r <= v.len(),
{
    let mut k: usize = 0;
    assert(v@.subrange(0, v.len() as int) == v@);
    while k < v.len() && v[k] == c
        invariant
            k <= v.len(),
            count_leading(v@, c) == k + count_leading(v@.subrange(k as int, v.len() as int), c),
        decreases v.len() - k,
    {
        assert(v@.subrange(k as int, v.len() as int).drop_first() == v@.subrange(
            k + 1,
            v.len() as int,
        ));
        k += 1;
    }
    k
}

/// Prefix `text` with section indentation.
fn indent(text: &Vec<char>, depth: usize) -> (r: Vec<char>)
    ensures
        r@ == indent_spec(text@, depth as nat),
{
    let d = if depth == 0 {
        0
    } else {
        depth - 1
    };
    let levels = if d > 6 {
        6
    } else {
        d
    };
    let mut out = spaces_chars(levels * 2);
    let t = trim_start_chars(text);
    append_chars(&mut out, &t);
    out
}

/// The placeholder shown for a partial line.
fn partial(line: &Vec<char>) -> (r: Vec<char>)
    requires
        line.len() >= 2,
    ensures
        r@ == partial_text(line@),
{
    let rest = slice_chars(line, 2, line.len());
    proof {
        lemma_find_from_bounds(rest@, 0, '`');
    }
    let k = find_char_from(&rest, 0, '`');
    let head = slice_chars(&rest, 0, k);
    let target = trim_chars(&head);
    if target.len() == 0 {
        chars_of("[partial]")
    } else {
        let mut r = chars_of("[partial: ");
        append_chars(&mut r, &target);
        append_str(&mut r, "]");
        r
    }
}

/// Mutable renderer state.
struct RenderBuf {
    title: Vec<char>,
    lines: Vec<PageLine>,
    literal: bool,
    depth: usize,
    table_mode: bool,
    rows: Vec<Vec<char>>,
}

impl View for RenderBuf {
    type V = RenderState;

    closed spec fn view(&self) -> RenderState {
        RenderState {
            title: self.title@,
            lines: lines_view(self.lines@),
            literal: self.literal,
            depth: self.depth as nat,
            table_mode: self.table_mode,
            rows: rows_view(self.rows@),
        }
    }
}

/// Whether `v` is exactly the two characters `a`, `b`.
fn is_pair(v: &Vec<char>, a: char, b: char) -> (r: bool)
    ensures
        r == (v@ == seq![a, b]),
{
    let r = v.len() == 2 && v[0] == a && v[1] == b;
    proof {
        if v@.len() == 2 && v@[0] == a && v@[1] == b {
            assert(v@ =~= seq![a, b]);
        }
    }
    r
}

/// Apply one input line to the renderer state.
fn step_line(st: &mut RenderBuf, raw_line: &Vec<char>, src: &Vec<char>)
    ensures
        final(st)@ == step(old(st)@, raw_line@, src@),
{
    let line = trim_end_chars(raw_line);
    let trimmed = trim_chars(&line);
    proof {
        reveal_strlit("`=");
        reveal_strlit("<");
        assert("`="@ =~= seq!['`', '=']);
    }
    if is_pair(&trimmed, '`', '=') {
        st.literal = !st.literal;
        return;
    }
    if trimmed.len() >= 2 && trimmed[0] == '`' && trimmed[1] == 't' {
        if st.table_mode {
            if st.rows.len() > 0 {
                render_table(&st.rows, &mut st.lines);
            }
            st.rows = Vec::new();
            st.table_mode = false;
        } else {
            st.table_mode = true;
            st.rows = Vec::new();
        }
        proof {
            assert(rows_view(st.rows@) =~= Seq::<Seq<char>>::empty());
        }
        return;
    }
    if st.table_mode {
        let ghost before = st.rows@;
        st.rows.push(line);
        proof {
            assert(rows_view(st.rows@) =~= rows_view(before).push(line@));
        }
        return;
    }
    let none: Vec<Link> = Vec::new();
    proof {
        assert(links_view(none@) =~= Seq::<LinkModel>::empty());
    }
    if st.literal {
        push_line(&mut st.lines, trimmed, PageStyle::Normal, none);
        return;
    }
    if line.len() > 0 && line[0] == '#' {
        return;
    }
    if line.len() > 0 && line[0] == '\\' {
        let rest = slice_chars(&line, 1, line.len());
        push_line(&mut st.lines, rest, PageStyle::Normal, none);
        return;
    }
    if line.len() >= 2 && line[0] == '`' && line[1] == '{' {
        let text = partial(&line);
        push_line(&mut st.lines, text, PageStyle::Emphasized, none);
        return;
    }
    if line.len() == 1 && line[0] == '<' {
        assert(line@ =~= "<"@);
        st.depth = 0;
        return;
    }
    assert(line@ != "<"@);
    let leading = count_leading_chars(&line, '>');
    if leading > 0 {
        let after = slice_chars(&line, leading, line.len());
        let text = trim_chars(&after);
        let field_marker = chars_of("`<");
        st.depth = leading;
        if contains_chars(&text, &field_marker) {
            let (t, emph, links) = inline(&text, src);
            let shown = indent(&t, leading);
            let style = if emph {
                PageStyle::Emphasized
            } else {
                PageStyle::Normal
            };
            push_line(&mut st.lines, shown, style, links);
        } else {
            if st.title.len() == 0 {
                st.title = slice_chars(&text, 0, text.len());
                assert(text@.subrange(0, text@.len() as int) == text@);
            }
            let (t, _emph, links) = inline(&text, src);
            let level: u8 = if leading > 4 {
                4
            } else {
                leading as u8
            };
            push_line(&mut st.lines, t, PageStyle::Heading(level), links);
        }
        return;
    }
    let (t, emph, links) = inline(&line, src);
    let shown = indent(&t, st.depth);
    let style = if emph {
        PageStyle::Emphasized
    } else {
        PageStyle::Normal
    };
    push_line(&mut st.lines, shown, style, links);
}

/// Render Micron markup into plain display lines, resolving relative links
/// against `source` (the node address hash in hex). Returns the page title
/// (the first heading) and the lines.
pub fn render_micron(raw: &str, source: &str) -> (r: (String, Vec<PageLine>))
    ensures
        (r.0@, lines_view(r.1@)) == micron(raw@, source@),
{
    let chars = chars_of(raw);
    let src = chars_of(source);
    let ls = split_lines(&chars);
    let mut st = RenderBuf {
        title: Vec::new(),
        lines: Vec::new(),
        literal: false,
        depth: 0,
        table_mode: false,
        rows: Vec::new(),
    };
    proof {
        assert(lines_view(st.lines@) =~= Seq::<LineModel>::empty());
        assert(rows_view(st.rows@) =~= Seq::<Seq<char>>::empty());
        assert(st@ == initial_state());
    }
    let mut k: usize = 0;
    while k < ls.len()
        invariant
            k <= ls.len(),
            rows_view(ls@) == lines_from(chars@, 0),
            chars@ == raw@,
            src@ == source@,
            st@ == render_upto(rows_view(ls@), k as int, src@),
        decreases ls.len() - k,
    {
        assert(rows_view(ls@)[k as int] == ls@[k as int]@);
        step_line(&mut st, &ls[k], &src);
        k += 1;
    }
    if st.table_mode {
        render_table(&st.rows, &mut st.lines);
    }
    (string_of(&st.title), st.lines)
}

/// `String::from_utf8_lossy`: the text of `bytes`, with every invalid UTF-8
/// sequence replaced by U+FFFD.
pub uninterp spec fn utf8_lossy(bytes: Seq<u8>) -> Seq<char>;

/// std's `String::from_utf8_lossy`. Stated here: the result is the named
/// decoding of the argument, and for valid UTF-8 it is exactly the decoded
/// text (the documented borrowed case).
#[verifier::external_body]
pub(crate) fn decode_lossy(raw: &[u8]) -> (s: String)
    ensures
        s@ == utf8_lossy(raw@),
        valid_utf8(raw@) ==> s@ == decode_utf8(raw@),
{
    String::from_utf8_lossy(raw).into_owned()
}

impl Page {
    /// Parse raw Micron page bytes. `source` is the node address hash (hex)
    /// the page came from; it is used to resolve relative links.
    pub fn from_bytes(raw: &[u8], source: String) -> (p: Page)
        ensures
            p@.source == source@,
            p@.raw == raw@,
            (p@.title, p@.lines) == micron(utf8_lossy(raw@), source@),
    {
        let text = decode_lossy(raw);
        let (title, lines) = render_micron(text.as_str(), source.as_str());
        let mut bytes: Vec<u8> = Vec::new();
        let mut i: usize = 0;
        while i < raw.len()
            invariant
                i <= raw.len(),
                bytes@ == raw@.subrange(0, i as int),
            decreases raw.len() - i,
        {
            bytes.push(raw[i]);
            i += 1;
            assert(bytes@ == raw@.subrange(0, i as int));
        }
        assert(raw@.subrange(0, raw@.len() as int) == raw@);
        Page { source, title, raw: bytes, lines }
    }

    /// The rendered, displayable lines of the page.
    pub fn lines(&self) -> (r: &[PageLine])
        ensures
            lines_view(r@) == self@.lines,
    {
        self.lines.as_slice()
    }
}

} // verus!
