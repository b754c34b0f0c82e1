//! Text in several styles, and how it is written to a terminal.

use crate::text;
use colored::Colorize;
use vstd::prelude::*;

verus! {

/// How a piece of text is shown.
#[derive(Debug, Copy, Clone, PartialEq, Eq, Structural)]
pub enum Style {
    Plain,
    Green,
    Yellow,
    Red,
    Bold,
    Underline,
    RedBold,
    RedUnderline,
}

/// A piece of text that is shown in one style.
#[derive(Debug)]
pub struct Span {
    pub style: Style,
    pub text: String,
}

/// The value of a [`Span`].
pub struct SpanView {
    pub style: Style,
    pub text: Seq<char>,
}

impl View for Span {
    type V = SpanView;

    open spec fn view(&self) -> SpanView {
        SpanView { style: self.style, text: self.text@ }
    }
}

/// Text in several styles.
#[derive(Debug)]
pub struct Report {
    pub spans: Vec<Span>,
}

impl View for Report {
    type V = Seq<SpanView>;

    open spec fn view(&self) -> Seq<SpanView> {
        self.spans@.map_values(|s: Span| s@)
    }
}

/// A piece of text that is shown as it is.
pub open spec fn plain(text: Seq<char>) -> SpanView {
    SpanView { style: Style::Plain, text }
}

/// A piece of text that is shown in a style.
pub open spec fn styled(style: Style, text: Seq<char>) -> SpanView {
    SpanView { style, text }
}

impl Report {
    /// A report that says nothing.
    pub fn new() -> (report: Report)
        ensures
            report@ == Seq::<SpanView>::empty(),
    {
        let report = Report { spans: Vec::new() };
        assert(report@ =~= Seq::empty());
        report
    }

    /// Adds text that is shown in a style.
    pub fn styled(&mut self, style: Style, text: &str)
        ensures
            final(self)@ == old(self)@.push(styled(style, text@)),
    {
        let ghost before = self@;
        self.spans.push(Span { style, text: text.to_owned() });
        assert(self@ =~= before.push(styled(style, text@)));
    }

    /// Adds text that is shown as it is.
    pub fn plain(&mut self, text: &str)
        ensures
            final(self)@ == old(self)@.push(plain(text@)),
    {
        self.styled(Style::Plain, text);
    }
}

/// The sequence that switches a style on.
pub open spec fn style_on(codes: Seq<char>) -> Seq<char> {
    "\x1B["@ + codes + "m"@
}

/// The sequence that switches every style off.
pub open spec fn style_off() -> Seq<char> {
    "\x1B[0m"@
}

/// Text with terminal codes around it. The style is switched on in front of the text if `switched`,
/// and again wherever the text switches styles off itself if `restored`.
pub open spec fn painted(
    codes: Seq<char>,
    text: Seq<char>,
    switched: bool,
    restored: bool,
) -> Seq<char> {
    (if switched {
        style_on(codes)
    } else {
        Seq::empty()
    }) + (if restored {
        text::replaced(text, style_off(), style_off() + style_on(codes))
    } else {
        text
    }) + style_off()
}

/// What may be shown of some text: the text with terminal codes or, where nothing is to be painted,
/// the text alone. Whether to paint is asked anew for each code, and any thread may change the
/// answer.
pub open spec fn may_show(codes: Seq<char>, text: Seq<char>, shown: Seq<char>) -> bool {
    shown == text || exists|switched: bool, restored: bool|
        shown == #[trigger] painted(codes, text, switched, restored)
}

/// Formats `colored::Colorize::green`: the text between the code `32` and the reset or, where the
/// environment or an override forbids painting, the text alone. An override that changes during the
/// call leaves out the code in front of the text or those behind resets in it. Which of these is
/// shown is not stated, as the environment decides.
#[verifier::external_body]
fn green(text: &str) -> (shown: String)
    ensures
        may_show("32"@, text@, shown@),
{
    text.green().to_string()
}

/// Formats `colored::Colorize::yellow`: the text between the code `33` and the reset or, where the
/// environment or an override forbids painting, the text alone. An override that changes during the
/// call leaves out the code in front of the text or those behind resets in it. Which of these is
/// shown is not stated, as the environment decides.
#[verifier::external_body]
fn yellow(text: &str) -> (shown: String)
    ensures
        may_show("33"@, text@, shown@),
{
    text.yellow().to_string()
}

/// Formats `colored::Colorize::red`: the text between the code `31` and the reset or, where the
/// environment or an override forbids painting, the text alone. An override that changes during the
/// call leaves out the code in front of the text or those behind resets in it. Which of these is
/// shown is not stated, as the environment decides.
#[verifier::external_body]
fn red(text: &str) -> (shown: String)
    ensures
        may_show("31"@, text@, shown@),
{
    text.red().to_string()
}

/// Formats `colored::Colorize::bold`: the text between the code `1` and the reset or, where the
/// environment or an override forbids painting, the text alone. An override that changes during the
/// call leaves out the code in front of the text or those behind resets in it. Which of these is
/// shown is not stated, as the environment decides.
#[verifier::external_body]
fn bold(text: &str) -> (shown: String)
    ensures
        may_show("1"@, text@, shown@),
{
    text.bold().to_string()
}

/// Formats `colored::Colorize::underline`: the text between the code `4` and the reset or, where
/// the environment or an override forbids painting, the text alone. An override that changes during
/// the call leaves out the code in front of the text or those behind resets in it. Which of these
/// is shown is not stated, as the environment decides.
#[verifier::external_body]
fn underline(text: &str) -> (shown: String)
    ensures
        may_show("4"@, text@, shown@),
{
    text.underline().to_string()
}

/// Formats `colored::Colorize::red` made `bold`: the text between the codes `1;31` and the reset
/// or, where the environment or an override forbids painting, the text alone. An override that
/// changes during the call leaves out the code in front of the text or those behind resets in it.
/// Which of these is shown is not stated, as the environment decides.
#[verifier::external_body]
fn red_bold(text: &str) -> (shown: String)
    ensures
        may_show("1;31"@, text@, shown@),
{
    text.red().bold().to_string()
}

/// Formats `colored::Colorize::red` with an `underline`: the text between the codes `4;31` and the
/// reset or, where the environment or an override forbids painting, the text alone. An override
/// that changes during the call leaves out the code in front of the text or those behind resets in
/// it. Which of these is shown is not stated, as the environment decides.
#[verifier::external_body]
fn red_underline(text: &str) -> (shown: String)
    ensures
        may_show("4;31"@, text@, shown@),
{
    text.red().underline().to_string()
}

/// What may be shown of a span.
pub open spec fn may_show_span(span: SpanView, shown: Seq<char>) -> bool {
    match span.style {
        Style::Plain => shown == span.text,
        Style::Green => may_show("32"@, span.text, shown),
        Style::Yellow => may_show("33"@, span.text, shown),
        Style::Red => may_show("31"@, span.text, shown),
        Style::Bold => may_show("1"@, span.text, shown),
        Style::Underline => may_show("4"@, span.text, shown),
        Style::RedBold => may_show("1;31"@, span.text, shown),
        Style::RedUnderline => may_show("4;31"@, span.text, shown),
    }
}

/// Applies the style of a span to its text.
fn paint(span: &Span) -> (shown: String)
    ensures
        may_show_span(span@, shown@),
{
    let text = span.text.as_str();
    match span.style {
        Style::Plain => text.to_owned(),
        Style::Green => green(text),
        Style::Yellow => yellow(text),
        Style::Red => red(text),
        Style::Bold => bold(text),
        Style::Underline => underline(text),
        Style::RedBold => red_bold(text),
        Style::RedUnderline => red_underline(text),
    }
}

impl Report {
    /// The report as it is written to the terminal: what is shown of each span, one after the
    /// other.
    pub fn render(&self) -> (shown: String)
        ensures
            exists|pieces: Seq<Seq<char>>|
                {
                    &&& pieces.len() == self@.len()
                    &&& forall|i: int|
                        0 <= i < pieces.len() ==> may_show_span(self@[i], #[trigger] pieces[i])
                    &&& shown@ == #[trigger] text::concatenated(pieces)
                },
    {
        let mut pieces: Vec<String> = Vec::new();
        let mut i: usize = 0;
        while i < self.spans.len()
            invariant
                i <= self.spans.len(),
                pieces@.len() == i,
                forall|k: int|
                    0 <= k < i ==> may_show_span(self@[k], #[trigger] text::views(pieces@)[k]),
            decreases self.spans.len() - i,
        {
            let ghost before = text::views(pieces@);
            let piece = paint(&self.spans[i]);
            pieces.push(piece);
            assert(text::views(pieces@) =~= before.push(piece@));
            assert(self@[i as int] == self.spans@[i as int]@);
            i += 1;
        }
        text::concatenate(&pieces)
    }
}

/// The codes of a style.
pub open spec fn codes_of(style: Style) -> Seq<char> {
    match style {
        Style::Plain => Seq::empty(),
        Style::Green => "32"@,
        Style::Yellow => "33"@,
        Style::Red => "31"@,
        Style::Bold => "1"@,
        Style::Underline => "4"@,
        Style::RedBold => "1;31"@,
        Style::RedUnderline => "4;31"@,
    }
}

/// Whatever is shown of a text holds all of it. A plain text is shown as it is, and a text in a style
/// either as it is or, where it resets no style itself, between the codes of the style, which may be
/// left out, and the reset.
pub proof fn law_what_is_shown_of_a_text(style: Style, text: Seq<char>, shown: Seq<char>)
    requires
        may_show_span(SpanView { style, text }, shown),
        !text::includes(text, "\x1B[0m"@),
    ensures
        style is Plain ==> shown == text,
        shown == text || shown == text + "\x1B[0m"@ || shown == "\x1B["@ + codes_of(style) + "m"@
            + text + "\x1B[0m"@,
{
    let codes = codes_of(style);
    text::law_replacing_nothing_changes_nothing(
        text,
        style_off(),
        style_off() + style_on(codes),
    );
    if shown != text {
        let (switched, restored) = choose|switched: bool, restored: bool|
            shown == #[trigger] painted(codes, text, switched, restored);
        assert(shown == painted(codes, text, switched, restored));
        if !switched {
            assert(Seq::<char>::empty() + text + style_off() =~= text + style_off());
        }
    }
}

} // verus!
