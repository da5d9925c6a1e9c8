use vstd::prelude::*;
use crate::utils::text::{
    chars_of, copy_chars, find_char, find_char_from, lemma_find_char_from, push_char, starts_with,
    string_from_chars, trim, trim_chars,
};

verus! {

/// The role of a piece of styled text; the terminal front end picks colours by it.
#[derive(Debug, Clone, Copy, PartialEq, Eq, Structural)]
pub enum SpanStyle {
    Heading1,
    Heading2,
    Heading3,
    BulletMarker,
    QuoteMarker,
    Code,
    Bold,
    Plain,
}

/// A piece of text in one style.
pub struct StyledSpan {
    pub text: String,
    pub style: SpanStyle,
}

/// One rendered line: its pieces from left to right.
pub struct StyledLine {
    pub spans: Vec<StyledSpan>,
}

pub type SpanView = (Seq<char>, SpanStyle);

impl View for StyledSpan {
    type V = SpanView;

    open spec fn view(&self) -> SpanView {
        (self.text@, self.style)
    }
}

impl View for StyledLine {
    type V = Seq<SpanView>;

    open spec fn view(&self) -> Seq<SpanView> {
        span_views(self.spans@)
    }
}

/// A plain span over `s[from..to]`, or nothing when that range is empty.
pub open spec fn plain_run(s: Seq<char>, from: int, to: int) -> Seq<SpanView> {
    if from < to {
        seq![(s.subrange(from, to), SpanStyle::Plain)]
    } else {
        Seq::empty()
    }
}

/// The first position `j >= i` where `s` holds two consecutive `*`, or the length of `s`.
pub open spec fn find_double_star_from(s: Seq<char>, i: int) -> int
    decreases s.len() - i,
{
    if i < 0 || i + 1 >= s.len() {
        s.len() as int
    } else if s[i] == '*' && s[i + 1] == '*' {
        i
    } else {
        find_double_star_from(s, i + 1)
    }
}

pub proof fn lemma_find_double_star_from(s: Seq<char>, i: int)
    requires
        0 <= i <= s.len(),
    ensures
        i <= find_double_star_from(s, i) <= s.len(),
        find_double_star_from(s, i) < s.len() ==> find_double_star_from(s, i) + 1 < s.len()
            && s[find_double_star_from(s, i)] == '*' && s[find_double_star_from(s, i) + 1] == '*',
    decreases s.len() - i,
{
    if i + 1 < s.len() && !(s[i] == '*' && s[i + 1] == '*') {
        lemma_find_double_star_from(s, i + 1);
    }
}

/// The spans of `s[i..]`, where the plain text not yet emitted starts at `start`.
/// A backtick opens code that runs to the next backtick (or to the end); `**` opens
/// bold text that runs to the next `**` (or to the end); the text between such runs
/// is plain, and an empty plain run gives no span.
pub open spec fn inline_spans_from(s: Seq<char>, i: int, start: int) -> Seq<SpanView>
    decreases s.len() - i,
{
    if i < 0 || i >= s.len() {
        plain_run(s, start, s.len() as int)
    } else if s[i] == '`' {
        proof {
            lemma_find_char_from(s, '`', i + 1);
        }
        let close = find_char_from(s, '`', i + 1);
        let next = if close < s.len() { close + 1 } else { s.len() as int };
        plain_run(s, start, i) + seq![(s.subrange(i + 1, close), SpanStyle::Code)]
            + inline_spans_from(s, next, next)
    } else if i + 1 < s.len() && s[i] == '*' && s[i + 1] == '*' {
        proof {
            lemma_find_double_star_from(s, i + 2);
        }
        let close = find_double_star_from(s, i + 2);
        let next = if close < s.len() { close + 2 } else { s.len() as int };
        plain_run(s, start, i) + seq![(s.subrange(i + 2, close), SpanStyle::Bold)]
            + inline_spans_from(s, next, next)
    } else {
        inline_spans_from(s, i + 1, start)
    }
}

/// The spans of a text with inline code and bold markup.
pub open spec fn inline_spans(s: Seq<char>) -> Seq<SpanView> {
    inline_spans_from(s, 0, 0)
}

pub open spec fn span_views(spans: Seq<StyledSpan>) -> Seq<SpanView> {
    spans.map_values(|sp: StyledSpan| sp@)
}

proof fn lemma_span_views_push(spans: Seq<StyledSpan>, sp: StyledSpan)
    ensures
        span_views(spans.push(sp)) == span_views(spans).push(sp@),
{
    assert(span_views(spans.push(sp)) =~= span_views(spans).push(sp@));
}

fn push_plain_run(out: &mut Vec<StyledSpan>, v: &Vec<char>, from: usize, to: usize)
    requires
        from <= to <= v@.len(),
    ensures
        span_views(final(out)@) == span_views(old(out)@) + plain_run(v@, from as int, to as int),
{
    if from < to {
        let text = string_from_chars(v, from, to);
        let sp = StyledSpan { text, style: SpanStyle::Plain };
        proof {
            lemma_span_views_push(out@, sp);
        }
        out.push(sp);
    } else {
        assert(span_views(out@) + plain_run(v@, from as int, to as int) =~= span_views(out@));
    }
}

fn push_span(out: &mut Vec<StyledSpan>, v: &Vec<char>, from: usize, to: usize, style: SpanStyle)
    requires
        from <= to <= v@.len(),
    ensures
        span_views(final(out)@) == span_views(old(out)@).push((v@.subrange(from as int, to as int), style)),
{
    let text = string_from_chars(v, from, to);
    let sp = StyledSpan { text, style };
    proof {
        lemma_span_views_push(out@, sp);
    }
    out.push(sp);
}

/// Splits a line into plain, code and bold spans.
pub fn parse_inline_styles(text: &Vec<char>) -> (res: Vec<StyledSpan>)
    ensures
        span_views(res@) == inline_spans(text@),
{
    let ghost s = text@;
    let n = text.len();
    let mut out: Vec<StyledSpan> = Vec::new();
    let mut i: usize = 0;
    let mut start: usize = 0;
    assert(span_views(out@) =~= Seq::<SpanView>::empty());
    while i < n
        invariant
            s == text@,
            n == s.len(),
            start <= i <= n,
            span_views(out@) + inline_spans_from(s, i as int, start as int) == inline_spans(s),
        decreases n - i,
    {
        let ghost before = span_views(out@);
        if text[i] == '`' {
            push_plain_run(&mut out, text, start, i);
            let close = find_char(text, '`', i + 1);
            proof {
                lemma_find_char_from(s, '`', i + 1);
            }
            push_span(&mut out, text, i + 1, close, SpanStyle::Code);
            let next = if close < n { close + 1 } else { n };
            assert(span_views(out@) + inline_spans_from(s, next as int, next as int) =~= before
                + inline_spans_from(s, i as int, start as int));
            i = next;
            start = next;
        } else if i + 1 < n && text[i] == '*' && text[i + 1] == '*' {
            push_plain_run(&mut out, text, start, i);
            let mut j = i + 2;
            while j < n - 1 && !(text[j] == '*' && text[j + 1] == '*')
                invariant
                    s == text@,
                    n == s.len(),
                    i + 1 < n,
                    i + 2 <= j <= n,
                    find_double_star_from(s, j as int) == find_double_star_from(s, i + 2),
                decreases n - j,
            {
                j = j + 1;
            }
            let close = if j < n - 1 { j } else { n };
            proof {
                lemma_find_double_star_from(s, i + 2);
            }
            push_span(&mut out, text, i + 2, close, SpanStyle::Bold);
            let next = if close < n { close + 2 } else { n };
            assert(span_views(out@) + inline_spans_from(s, next as int, next as int) =~= before
                + inline_spans_from(s, i as int, start as int));
            i = next;
            start = next;
        } else {
            i = i + 1;
        }
    }
    push_plain_run(&mut out, text, start, n);
    assert(span_views(out@) =~= inline_spans(s));
    out
}


/// `l` without one trailing carriage return.
pub open spec fn strip_cr(l: Seq<char>) -> Seq<char> {
    if l.len() > 0 && l.last() == '\r' {
        l.drop_last()
    } else {
        l
    }
}

/// The lines of `s[pos..]` as std's `str::lines` gives them: split at each line feed,
/// a carriage return before the line feed dropped, and no empty line after a final
/// line feed.
pub open spec fn lines_from(s: Seq<char>, pos: int) -> Seq<Seq<char>>
    decreases s.len() - pos,
{
    if pos < 0 || pos >= s.len() {
        Seq::empty()
    } else {
        proof {
            lemma_find_char_from(s, '\n', pos);
        }
        let nl = find_char_from(s, '\n', pos);
        if nl >= s.len() {
            seq![s.subrange(pos, s.len() as int)]
        } else {
            seq![strip_cr(s.subrange(pos, nl))] + lines_from(s, nl + 1)
        }
    }
}

/// The lines of a text.
pub open spec fn markdown_lines(s: Seq<char>) -> Seq<Seq<char>> {
    lines_from(s, 0)
}

/// The marker that stands in front of a list item.
pub open spec fn bullet_marker() -> Seq<char> {
    seq![' ', ' ', '\u{2022}', ' ']
}

/// The marker that stands in front of a quoted line.
pub open spec fn quote_marker() -> Seq<char> {
    seq![' ', ' ', '\u{258c}', ' ']
}

/// The rendering of one line of markdown. Its trimmed text decides: `# `, `## ` and
/// `### ` make the whole trimmed line a heading of that level; `- ` or `* ` make a list
/// item and `> ` a quote, whose rest is styled inline after a marker; any other line is
/// styled inline as it stands, untrimmed.
pub open spec fn render_line_spec(line: Seq<char>) -> Seq<SpanView> {
    let t = trim(line);
    if starts_with(t, seq!['#', ' ']) {
        seq![(t, SpanStyle::Heading1)]
    } else if starts_with(t, seq!['#', '#', ' ']) {
        seq![(t, SpanStyle::Heading2)]
    } else if starts_with(t, seq!['#', '#', '#', ' ']) {
        seq![(t, SpanStyle::Heading3)]
    } else if starts_with(t, seq!['-', ' ']) || starts_with(t, seq!['*', ' ']) {
        seq![(bullet_marker(), SpanStyle::BulletMarker)] + inline_spans(t.subrange(2, t.len() as int))
    } else if starts_with(t, seq!['>', ' ']) {
        seq![(quote_marker(), SpanStyle::QuoteMarker)] + inline_spans(t.subrange(2, t.len() as int))
    } else {
        inline_spans(line)
    }
}

/// Whether `v` begins with the characters of `p`.
fn begins_with(v: &Vec<char>, p: &Vec<char>) -> (res: bool)
    ensures
        res == starts_with(v@, p@),
{
    if p.len() > v.len() {
        return false;
    }
    let mut k: usize = 0;
    while k < p.len()
        invariant
            p@.len() <= v@.len(),
            k <= p@.len(),
            forall|m: int| 0 <= m < k ==> v@[m] == p@[m],
        decreases p@.len() - k,
    {
        if v[k] != p[k] {
            assert(v@.subrange(0, p@.len() as int)[k as int] != p@[k as int]);
            return false;
        }
        k = k + 1;
    }
    assert(v@.subrange(0, p@.len() as int) =~= p@);
    true
}

/// A marker string: two spaces, the given character and a space.
fn marker(c: char) -> (res: String)
    ensures
        res@ == seq![' ', ' ', c, ' '],
{
    let mut s = String::new();
    push_char(&mut s, ' ');
    push_char(&mut s, ' ');
    push_char(&mut s, c);
    push_char(&mut s, ' ');
    assert(s@ =~= seq![' ', ' ', c, ' ']);
    s
}

/// A line made of one span holding all of `t`.
fn whole_line(t: &Vec<char>, style: SpanStyle) -> (res: StyledLine)
    ensures
        res@ == seq![(t@, style)],
{
    let mut spans: Vec<StyledSpan> = Vec::new();
    push_span(&mut spans, t, 0, t.len(), style);
    assert(t@.subrange(0, t@.len() as int) =~= t@);
    assert(span_views(spans@) =~= seq![(t@, style)]);
    StyledLine { spans }
}

/// A marker span followed by the inline spans of `t[2..]`.
fn marked_line(t: &Vec<char>, mark: char, style: SpanStyle) -> (res: StyledLine)
    requires
        t@.len() >= 2,
    ensures
        res@ == seq![(seq![' ', ' ', mark, ' '], style)] + inline_spans(t@.subrange(2, t@.len() as int)),
{
    let rest = copy_chars(t, 2, t.len());
    let inner = parse_inline_styles(&rest);
    let mut spans: Vec<StyledSpan> = Vec::new();
    let sp = StyledSpan { text: marker(mark), style };
    proof {
        lemma_span_views_push(spans@, sp);
    }
    spans.push(sp);
    let mut k: usize = 0;
    while k < inner.len()
        invariant
            k <= inner@.len(),
            span_views(spans@) == seq![(seq![' ', ' ', mark, ' '], style)] + span_views(inner@).subrange(0, k as int),
        decreases inner@.len() - k,
    {
        let piece = StyledSpan { text: inner[k].text.clone(), style: inner[k].style };
        proof {
            lemma_span_views_push(spans@, piece);
        }
        spans.push(piece);
        k = k + 1;
        assert(span_views(spans@) =~= seq![(seq![' ', ' ', mark, ' '], style)] + span_views(inner@).subrange(0, k as int));
    }
    assert(span_views(inner@).subrange(0, inner@.len() as int) =~= span_views(inner@));
    StyledLine { spans }
}

/// Renders one line of markdown.
pub fn render_line(line: &Vec<char>) -> (res: StyledLine)
    ensures
        res@ == render_line_spec(line@),
{
    let t = trim_chars(line);
    if begins_with(&t, &vec!['#', ' ']) {
        whole_line(&t, SpanStyle::Heading1)
    } else if begins_with(&t, &vec!['#', '#', ' ']) {
        whole_line(&t, SpanStyle::Heading2)
    } else if begins_with(&t, &vec!['#', '#', '#', ' ']) {
        whole_line(&t, SpanStyle::Heading3)
    } else if begins_with(&t, &vec!['-', ' ']) || begins_with(&t, &vec!['*', ' ']) {
        marked_line(&t, '\u{2022}', SpanStyle::BulletMarker)
    } else if begins_with(&t, &vec!['>', ' ']) {
        marked_line(&t, '\u{258c}', SpanStyle::QuoteMarker)
    } else {
        StyledLine { spans: parse_inline_styles(line) }
    }
}

/// Renders a markdown text line by line: headings, list items, quotes, and inline code
/// and bold text.
pub fn render_markdown(markdown: &str) -> (res: Vec<StyledLine>)
    ensures
        res@.len() == markdown_lines(markdown@).len(),
        forall|i: int| 0 <= i < res@.len() ==> #[trigger] res@[i]@ == render_line_spec(markdown_lines(markdown@)[i]),
{
    let v = chars_of(markdown);
    let ghost s = v@;
    let n = v.len();
    let mut out: Vec<StyledLine> = Vec::new();
    let ghost mut done: Seq<Seq<char>> = Seq::empty();
    let mut pos: usize = 0;
    assert(done + lines_from(s, 0) =~= markdown_lines(s));
    while pos < n
        invariant
            s == v@,
            s == markdown@,
            n == s.len(),
            pos <= n,
            done.len() == out@.len(),
            done + lines_from(s, pos as int) == markdown_lines(s),
            forall|i: int| 0 <= i < out@.len() ==> #[trigger] out@[i]@ == render_line_spec(done[i]),
        decreases n - pos,
    {
        let nl = find_char(&v, '\n', pos);
        proof {
            lemma_find_char_from(s, '\n', pos as int);
        }
        let mut end = nl;
        if nl < n && nl > pos && v[nl - 1] == '\r' {
            end = nl - 1;
        }
        let line = copy_chars(&v, pos, end);
        let ghost line_view = if nl >= n { s.subrange(pos as int, n as int) } else { strip_cr(s.subrange(pos as int, nl as int)) };
        assert(line@ =~= line_view);
        let rendered = render_line(&line);
        out.push(rendered);
        let next = if nl < n { nl + 1 } else { n };
        proof {
            assert(lines_from(s, pos as int) == seq![line_view] + lines_from(s, next as int));
            assert(done.push(line_view) + lines_from(s, next as int) =~= done + lines_from(s, pos as int));
            done = done.push(line_view);
        }
        pos = next;
    }
    assert(done =~= markdown_lines(s));
    out
}


/// Whether `c` can take part in inline markup (a backtick or an asterisk).
pub open spec fn is_markup_char(c: char) -> bool {
    c == '`' || c == '*'
}

/// `s` with every backtick and asterisk left out.
pub open spec fn without_markup(s: Seq<char>) -> Seq<char>
    decreases s.len(),
{
    if s.len() == 0 {
        Seq::empty()
    } else if is_markup_char(s.last()) {
        without_markup(s.drop_last())
    } else {
        without_markup(s.drop_last()).push(s.last())
    }
}

/// The texts of spans, one after the other.
pub open spec fn joined_text(spans: Seq<SpanView>) -> Seq<char>
    decreases spans.len(),
{
    if spans.len() == 0 {
        Seq::empty()
    } else {
        joined_text(spans.drop_last()) + spans.last().0
    }
}

proof fn lemma_without_markup_concat(a: Seq<char>, b: Seq<char>)
    ensures
        without_markup(a + b) == without_markup(a) + without_markup(b),
    decreases b.len(),
{
    if b.len() == 0 {
        assert(a + b =~= a);
        assert(without_markup(a) + without_markup(b) =~= without_markup(a));
    } else {
        lemma_without_markup_concat(a, b.drop_last());
        assert((a + b).drop_last() =~= a + b.drop_last());
        assert((a + b).last() == b.last());
        if is_markup_char(b.last()) {
        } else {
            assert(without_markup(a) + without_markup(b) =~= (without_markup(a) + without_markup(b.drop_last())).push(b.last()));
        }
    }
}

proof fn lemma_joined_text_concat(a: Seq<SpanView>, b: Seq<SpanView>)
    ensures
        joined_text(a + b) == joined_text(a) + joined_text(b),
    decreases b.len(),
{
    if b.len() == 0 {
        assert(a + b =~= a);
        assert(joined_text(a) + joined_text(b) =~= joined_text(a));
    } else {
        lemma_joined_text_concat(a, b.drop_last());
        assert((a + b).drop_last() =~= a + b.drop_last());
        assert((a + b).last() == b.last());
        assert(joined_text(a) + joined_text(b) =~= (joined_text(a) + joined_text(b.drop_last())) + b.last().0);
    }
}

proof fn lemma_joined_text_single(x: SpanView)
    ensures
        joined_text(seq![x]) == x.0,
{
    let one = seq![x];
    assert(one.drop_last() =~= Seq::<SpanView>::empty());
    assert(one.last() == x);
    assert(joined_text(one.drop_last()) == Seq::<char>::empty());
    assert(joined_text(one) == joined_text(one.drop_last()) + one.last().0);
    assert(Seq::<char>::empty() + x.0 =~= x.0);
}

proof fn lemma_without_markup_markers(s: Seq<char>)
    requires
        forall|j: int| 0 <= j < s.len() ==> is_markup_char(s[j]),
    ensures
        without_markup(s) == Seq::<char>::empty(),
    decreases s.len(),
{
    if s.len() > 0 {
        lemma_without_markup_markers(s.drop_last());
    }
}

proof fn lemma_plain_run_text(s: Seq<char>, from: int, to: int)
    requires
        0 <= from <= to <= s.len(),
    ensures
        joined_text(plain_run(s, from, to)) == s.subrange(from, to),
{
    if from < to {
        lemma_joined_text_single((s.subrange(from, to), SpanStyle::Plain));
    } else {
        assert(s.subrange(from, to) =~= Seq::<char>::empty());
    }
}

/// Splits `s[start..len]` at the given cut points and drops the markup characters of
/// the pieces in between the kept ones.
proof fn lemma_markup_pieces(s: Seq<char>, start: int, i: int, a: int, close: int, next: int)
    requires
        0 <= start <= i <= a <= close <= next <= s.len(),
        forall|j: int| i <= j < a ==> is_markup_char(s[j]),
        forall|j: int| close <= j < next ==> is_markup_char(s[j]),
    ensures
        without_markup(s.subrange(start, s.len() as int)) == without_markup(s.subrange(start, i))
            + without_markup(s.subrange(a, close)) + without_markup(s.subrange(next, s.len() as int)),
{
    let p1 = s.subrange(start, i);
    let m1 = s.subrange(i, a);
    let p2 = s.subrange(a, close);
    let m2 = s.subrange(close, next);
    let p3 = s.subrange(next, s.len() as int);
    assert(s.subrange(start, s.len() as int) =~= p1 + m1 + p2 + m2 + p3);
    lemma_without_markup_markers(m1);
    lemma_without_markup_markers(m2);
    lemma_without_markup_concat(p1 + m1 + p2 + m2, p3);
    lemma_without_markup_concat(p1 + m1 + p2, m2);
    lemma_without_markup_concat(p1 + m1, p2);
    lemma_without_markup_concat(p1, m1);
    assert(without_markup(p1) + Seq::<char>::empty() =~= without_markup(p1));
    assert(without_markup(p1) + without_markup(p2) + Seq::<char>::empty() =~= without_markup(p1) + without_markup(p2));
}

proof fn lemma_inline_spans_from_keep_text(s: Seq<char>, i: int, start: int)
    requires
        0 <= start <= i <= s.len(),
    ensures
        without_markup(joined_text(inline_spans_from(s, i, start))) == without_markup(
            s.subrange(start, s.len() as int),
        ),
    decreases s.len() - i,
{
    if i >= s.len() {
        lemma_plain_run_text(s, start, s.len() as int);
    } else if s[i] == '`' {
        lemma_find_char_from(s, '`', i + 1);
        let close = find_char_from(s, '`', i + 1);
        let next = if close < s.len() { close + 1 } else { s.len() as int };
        let pr = plain_run(s, start, i);
        let code = seq![(s.subrange(i + 1, close), SpanStyle::Code)];
        let rest = inline_spans_from(s, next, next);
        lemma_inline_spans_from_keep_text(s, next, next);
        lemma_joined_text_concat(pr + code, rest);
        lemma_joined_text_concat(pr, code);
        lemma_joined_text_single((s.subrange(i + 1, close), SpanStyle::Code));
        lemma_plain_run_text(s, start, i);
        lemma_without_markup_concat(s.subrange(start, i) + s.subrange(i + 1, close), joined_text(rest));
        lemma_without_markup_concat(s.subrange(start, i), s.subrange(i + 1, close));
        lemma_markup_pieces(s, start, i, i + 1, close, next);
    } else if i + 1 < s.len() && s[i] == '*' && s[i + 1] == '*' {
        lemma_find_double_star_from(s, i + 2);
        let close = find_double_star_from(s, i + 2);
        let next = if close < s.len() { close + 2 } else { s.len() as int };
        let pr = plain_run(s, start, i);
        let bold = seq![(s.subrange(i + 2, close), SpanStyle::Bold)];
        let rest = inline_spans_from(s, next, next);
        lemma_inline_spans_from_keep_text(s, next, next);
        lemma_joined_text_concat(pr + bold, rest);
        lemma_joined_text_concat(pr, bold);
        lemma_joined_text_single((s.subrange(i + 2, close), SpanStyle::Bold));
        lemma_plain_run_text(s, start, i);
        lemma_without_markup_concat(s.subrange(start, i) + s.subrange(i + 2, close), joined_text(rest));
        lemma_without_markup_concat(s.subrange(start, i), s.subrange(i + 2, close));
        lemma_markup_pieces(s, start, i, i + 2, close, next);
    } else {
        lemma_inline_spans_from_keep_text(s, i + 1, start);
    }
}

/// Inline styling loses no text: the span texts, one after the other, hold every
/// character of the line that is not a backtick or an asterisk, in order, and nothing
/// else of that kind.
pub proof fn lemma_inline_spans_keep_text(s: Seq<char>)
    ensures
        without_markup(joined_text(inline_spans(s))) == without_markup(s),
{
    lemma_inline_spans_from_keep_text(s, 0, 0);
    assert(s.subrange(0, s.len() as int) =~= s);
}

} // verus!
