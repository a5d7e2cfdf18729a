use vstd::prelude::*;
use vstd::arithmetic::div_mod::{lemma_div_is_ordered, lemma_div_multiples_vanish};
use vstd::arithmetic::mul::lemma_mul_inequality;
use crate::decimal::{append_dec_u64, dec_str};
use crate::lines::{line_split, split_lines};
use crate::report::tail_after_char;

verus! {

#[verifier::external_type_specification]
#[verifier::external_body]
pub struct ExSyntaxSet(syntect::parsing::SyntaxSet);

#[verifier::external_type_specification]
#[verifier::external_body]
pub struct ExSyntaxReference(syntect::parsing::SyntaxReference);

#[verifier::external_type_specification]
#[verifier::external_body]
pub struct ExThemeSet(syntect::highlighting::ThemeSet);

#[verifier::external_type_specification]
#[verifier::external_body]
pub struct ExTheme(syntect::highlighting::Theme);

#[verifier::external_type_specification]
#[verifier::external_body]
pub struct ExHighlightLines<'a>(syntect::easy::HighlightLines<'a>);

#[verifier::external_type_specification]
#[verifier::external_body]
pub struct ExSyntectError(syntect::Error);

/// One styled stretch of a source line, reduced to plain color values:
/// the foreground channels with their alpha, and the background channels
/// the foreground may have to be blended over.
pub struct StyledSpan {
    pub fg_r: u8,
    pub fg_g: u8,
    pub fg_b: u8,
    pub fg_a: u8,
    pub bg_r: u8,
    pub bg_g: u8,
    pub bg_b: u8,
    pub text: String,
}

/// The texts of the spans, concatenated in order.
pub open spec fn spans_text(spans: Seq<StyledSpan>) -> Seq<char>
    decreases spans.len(),
{
    if spans.len() == 0 {
        Seq::empty()
    } else {
        spans.first().text@ + spans_text(spans.drop_first())
    }
}

/// Rendering failures: the theme catalog consulted misses the requested
/// theme, or the highlighting engine reports an error for a line. The
/// builtin catalog documents that it holds the dark theme this crate
/// requests, so only the engine's per-line error is ever produced here.
#[derive(Debug, Clone, Copy, PartialEq, Eq, Structural)]
pub enum RenderError {
    ThemeNotFound,
    HighlightFailed,
}

/// Relies on syntect's `SyntaxSet::load_defaults_newlines`: the builtin
/// syntax-definition catalog, in its newline-inclusive flavor.
#[verifier::external_body]
fn load_syntaxes() -> syntect::parsing::SyntaxSet {
    syntect::parsing::SyntaxSet::load_defaults_newlines()
}

/// The set of theme names a catalog holds: the key set of its `themes`
/// map.
pub uninterp spec fn theme_names(ts: syntect::highlighting::ThemeSet) -> Set<Seq<char>>;

/// Relies on syntect's `ThemeSet::load_defaults`: the builtin theme
/// catalog, embedded in the crate. Its documentation lists the keys the
/// catalog holds, `base16-ocean.dark` among them.
#[verifier::external_body]
fn load_themes() -> (r: syntect::highlighting::ThemeSet)
    ensures
        theme_names(r).contains("base16-ocean.dark"@),
{
    syntect::highlighting::ThemeSet::load_defaults()
}

/// Relies on the std `BTreeMap::get` over syntect's public `themes`
/// field: yields the theme stored under `name` exactly when the catalog
/// holds that name.
#[verifier::external_body]
fn theme_named<'a>(ts: &'a syntect::highlighting::ThemeSet, name: &str) -> (r: Option<
    &'a syntect::highlighting::Theme,
>)
    ensures
        r is Some <==> theme_names(*ts).contains(name@),
{
    ts.themes.get(name)
}

/// Relies on syntect's `SyntaxSet::find_syntax_by_extension`: a syntax
/// registered for the given extension token, if any.
#[verifier::external_body]
fn syntax_for_token<'a>(ss: &'a syntect::parsing::SyntaxSet, token: &str) -> (r: Option<
    &'a syntect::parsing::SyntaxReference,
>) {
    ss.find_syntax_by_extension(token)
}

/// Relies on syntect's `SyntaxSet::find_syntax_by_first_line`: a syntax
/// whose first-line pattern matches the given line, if any.
#[verifier::external_body]
fn syntax_by_first_line<'a>(ss: &'a syntect::parsing::SyntaxSet, line: &str) -> (r: Option<
    &'a syntect::parsing::SyntaxReference,
>) {
    ss.find_syntax_by_first_line(line)
}

/// Relies on syntect's `SyntaxSet::find_syntax_plain_text`: the fallback
/// syntax that styles nothing. The call panics only on a catalog without
/// the plain-text syntax; the builtin catalog this crate loads always
/// holds it.
#[verifier::external_body]
fn plain_syntax<'a>(ss: &'a syntect::parsing::SyntaxSet) -> &'a syntect::parsing::SyntaxReference {
    ss.find_syntax_plain_text()
}

/// Relies on syntect's `HighlightLines::new`: a fresh line highlighter
/// over the given syntax and theme, ready at the start of a file.
#[verifier::external_body]
fn new_highlighter<'a>(
    syntax: &syntect::parsing::SyntaxReference,
    theme: &'a syntect::highlighting::Theme,
) -> syntect::easy::HighlightLines<'a> {
    syntect::easy::HighlightLines::new(syntax, theme)
}

/// Relies on syntect's `HighlightLines::highlight_line`, documented so
/// that the concatenation of the returned styled stretches makes the
/// original line; each stretch is reduced to its plain color channels.
#[verifier::external_body]
fn highlight_line_spans(
    hl: &mut syntect::easy::HighlightLines,
    line: &str,
    ss: &syntect::parsing::SyntaxSet,
) -> (r: Result<Vec<StyledSpan>, syntect::Error>)
    ensures
        r matches Ok(v) ==> spans_text(v@) == line@,
{
    match hl.highlight_line(line, ss) {
        Ok(regions) => Ok(regions.iter().map(|(st, t): &(syntect::highlighting::Style, &str)| StyledSpan {
            fg_r: st.foreground.r, fg_g: st.foreground.g, fg_b: st.foreground.b, fg_a: st.foreground.a,
            bg_r: st.background.r, bg_g: st.background.g, bg_b: st.background.b,
            text: (*t).to_string(),
        }).collect()),
        Err(e) => Err(e),
    }
}

/// One color channel of a foreground blended over a background with the
/// foreground's alpha, in the usual 255-denominator integer form.
pub open spec fn blended_channel(fgc: nat, bgc: nat, a: nat) -> nat {
    ((fgc * a + bgc * (255 - a)) / 255) as nat
}

/// The effective foreground channels of a span: taken as they stand at
/// full alpha, otherwise blended over the span's background.
pub open spec fn blended_rgb(sp: StyledSpan) -> (nat, nat, nat) {
    if sp.fg_a == 255 {
        (sp.fg_r as nat, sp.fg_g as nat, sp.fg_b as nat)
    } else {
        (
            blended_channel(sp.fg_r as nat, sp.bg_r as nat, sp.fg_a as nat),
            blended_channel(sp.fg_g as nat, sp.bg_g as nat, sp.fg_a as nat),
            blended_channel(sp.fg_b as nat, sp.bg_b as nat, sp.fg_a as nat),
        )
    }
}

/// The 24-bit-color terminal escape sequence selecting the given
/// foreground color.
pub open spec fn color_escape(r: nat, g: nat, b: nat) -> Seq<char> {
    "\u{1b}[38;2;"@ + dec_str(r) + ";"@ + dec_str(g) + ";"@ + dec_str(b) + "m"@
}

/// One span serialized: its effective color escape, then its text.
pub open spec fn escaped_span(sp: StyledSpan) -> Seq<char> {
    color_escape(blended_rgb(sp).0, blended_rgb(sp).1, blended_rgb(sp).2) + sp.text@
}

/// All spans of a line serialized in order.
pub open spec fn escaped_spans(spans: Seq<StyledSpan>) -> Seq<char>
    decreases spans.len(),
{
    if spans.len() == 0 {
        Seq::empty()
    } else {
        escaped_span(spans.first()) + escaped_spans(spans.drop_first())
    }
}

/// A whole line serialized: the spans in order, then the reset escape
/// returning the terminal to its unstyled state at line end.
pub open spec fn escaped_line(spans: Seq<StyledSpan>) -> Seq<char> {
    escaped_spans(spans) + "\u{1b}[0m"@
}

proof fn lemma_escaped_spans_push(spans: Seq<StyledSpan>, sp: StyledSpan)
    ensures
        escaped_spans(spans.push(sp)) == escaped_spans(spans) + escaped_span(sp),
    decreases spans.len(),
{
    if spans.len() == 0 {
        assert(spans.push(sp).len() == 1);
        assert(spans.push(sp).first() == sp);
        assert(spans.push(sp).drop_first() =~= Seq::<StyledSpan>::empty());
        assert(escaped_spans(Seq::<StyledSpan>::empty()) == Seq::<char>::empty());
        assert(escaped_spans(spans.push(sp)) == escaped_span(sp) + Seq::<char>::empty());
        assert(spans =~= Seq::<StyledSpan>::empty());
        assert(escaped_spans(spans.push(sp)) =~= escaped_spans(spans) + escaped_span(sp));
    } else {
        lemma_escaped_spans_push(spans.drop_first(), sp);
        assert(spans.push(sp).drop_first() =~= spans.drop_first().push(sp));
        assert(spans.push(sp).first() == spans.first());
        assert(escaped_spans(spans.push(sp)) =~= escaped_spans(spans) + escaped_span(sp));
    }
}

/// Blends one foreground channel over a background channel with the
/// given alpha.
fn blend_channel(fgc: u8, bgc: u8, a: u8) -> (r: u8)
    ensures
        r as nat == blended_channel(fgc as nat, bgc as nat, a as nat),
{
    proof {
        lemma_mul_inequality(fgc as int, 255, a as int);
        lemma_mul_inequality(bgc as int, 255, 255 - a as int);
    }
    let num: u32 = (fgc as u32) * (a as u32) + (bgc as u32) * (255 - a as u32);
    proof {
        lemma_div_is_ordered(num as int, 255int * 255, 255);
        lemma_div_multiples_vanish(255, 255);
    }
    (num / 255) as u8
}

/// Appends the terminal escape sequence selecting the given foreground
/// color to `s`.
fn append_color_escape(s: &mut String, r: u8, g: u8, b: u8)
    ensures
        final(s)@ == old(s)@ + color_escape(r as nat, g as nat, b as nat),
{
    s.append("\u{1b}[38;2;");
    append_dec_u64(s, r as u64);
    s.append(";");
    append_dec_u64(s, g as u64);
    s.append(";");
    append_dec_u64(s, b as u64);
    s.append("m");
    assert(s@ =~= old(s)@ + color_escape(r as nat, g as nat, b as nat));
}

/// Serializes the styled spans of one line into a single escape-coded
/// string: each span's effective color escape and text in order, closed
/// by the reset escape at line end.
pub fn escape_spans(spans: &Vec<StyledSpan>) -> (r: String)
    ensures
        r@ == escaped_line(spans@),
{
    let mut s = String::new();
    let mut k: usize = 0;
    while k < spans.len()
        invariant
            k <= spans@.len(),
            s@ == escaped_spans(spans@.subrange(0, k as int)),
        decreases spans@.len() - k,
    {
        let sp = &spans[k];
        if sp.fg_a == 255 {
            append_color_escape(&mut s, sp.fg_r, sp.fg_g, sp.fg_b);
        } else {
            let r = blend_channel(sp.fg_r, sp.bg_r, sp.fg_a);
            let g = blend_channel(sp.fg_g, sp.bg_g, sp.fg_a);
            let b = blend_channel(sp.fg_b, sp.bg_b, sp.fg_a);
            append_color_escape(&mut s, r, g, b);
        }
        s.append(sp.text.as_str());
        proof {
            lemma_escaped_spans_push(spans@.subrange(0, k as int), spans@[k as int]);
            assert(spans@.subrange(0, k as int).push(spans@[k as int]) =~= spans@.subrange(
                0,
                k + 1,
            ));
            assert(s@ =~= escaped_spans(spans@.subrange(0, k + 1)));
        }
        k = k + 1;
    }
    proof {
        assert(spans@.subrange(0, spans@.len() as int) =~= spans@);
    }
    s.append("\u{1b}[0m");
    s
}

/// Holds when `out` is a faithful escape-coded rendering of the source
/// line `src`: some ordered span decomposition of exactly `src`'s
/// characters serializes to `out`.
pub open spec fn line_renders(src: Seq<char>, out: Seq<char>) -> bool {
    exists|spans: Seq<StyledSpan>| spans_text(spans) == src && out == escaped_line(spans)
}

/// Renders `content` as escape-coded terminal lines, coloring it with
/// the builtin dark theme and a syntax chosen from `path`'s file name,
/// its extension, or the first line, falling back to plain text. Lines
/// are rendered strictly in file order: the result holds exactly one
/// escape-coded line per source line, none skipped, none reordered.
/// Fails only when the highlighting engine rejects a line: the builtin
/// catalog provably holds the requested dark theme, and empty content
/// asks nothing of the engine, so it always renders.
pub fn render_highlighted(content: &str, path: &str) -> (r: Result<Vec<String>, RenderError>)
    ensures
        r matches Ok(out) ==> out@.len() == line_split(content@).len() && (forall|i: int|
            0 <= i < out@.len() ==> line_renders(line_split(content@)[i], out@[i]@)),
        r matches Err(e) ==> e is HighlightFailed,
        content@.len() == 0 ==> r is Ok,
{
    let ss = load_syntaxes();
    let ts = load_themes();
    let theme = match theme_named(&ts, "base16-ocean.dark") {
        Some(t) => t,
        None => {
            // the builtin catalog holds the theme, so this arm is dead
            proof {
                assert(false);
            }
            return Err(RenderError::ThemeNotFound);
        },
    };
    let name = tail_after_char(path, '/');
    let ext = tail_after_char(name.as_str(), '.');
    let lines = split_lines(content);
    let mut syntax = syntax_for_token(&ss, name.as_str());
    if syntax.is_none() {
        syntax = syntax_for_token(&ss, ext.as_str());
    }
    if syntax.is_none() && lines.len() > 0 {
        syntax = syntax_by_first_line(&ss, lines[0].as_str());
    }
    let syntax = match syntax {
        Some(sy) => sy,
        None => plain_syntax(&ss),
    };
    let mut hl = new_highlighter(syntax, theme);
    let mut out: Vec<String> = Vec::new();
    let mut k: usize = 0;
    while k < lines.len()
        invariant
            k <= lines@.len(),
            out@.len() == k,
            lines@.map_values(|l: String| l@) == line_split(content@),
            forall|i: int| 0 <= i < k ==> line_renders(line_split(content@)[i], out@[i]@),
        decreases lines@.len() - k,
    {
        let spans = match highlight_line_spans(&mut hl, lines[k].as_str(), &ss) {
            Ok(v) => v,
            Err(_) => {
                proof {
                    assert(lines@.map_values(|l: String| l@).len() == lines@.len());
                    assert(line_split(content@).len() > 0);
                }
                return Err(RenderError::HighlightFailed);
            },
        };
        let esc = escape_spans(&spans);
        proof {
            assert(lines@.map_values(|l: String| l@)[k as int] == lines@[k as int]@);
            assert(spans_text(spans@) == line_split(content@)[k as int]);
            assert(line_renders(line_split(content@)[k as int], esc@));
        }
        out.push(esc);
        k = k + 1;
    }
    Ok(out)
}

} // verus!
