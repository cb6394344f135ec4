//! Terminal styling of our own output: banners, highlights, errors.

use vstd::prelude::*;
use crate::text::{chars_of, has_prefix, same_text, starts_with, string_of, texts};

verus! {

/// When output is coloured.
#[derive(Clone, Copy, Debug, PartialEq, Eq, Structural)]
pub enum ColorMode {
    /// Where stdout is a terminal that takes it.
    Auto,
    Always,
    Never,
}

impl Default for ColorMode {
    fn default() -> (r: ColorMode)
        ensures
            r == ColorMode::Auto,
    {
        ColorMode::Auto
    }
}

/// The mode that a value of `--color` names.
pub open spec fn named_mode(s: Seq<char>) -> Option<ColorMode> {
    if s == "auto"@ {
        Some(ColorMode::Auto)
    } else if s == "always"@ {
        Some(ColorMode::Always)
    } else if s == "never"@ {
        Some(ColorMode::Never)
    } else {
        None
    }
}

fn parse(s: &str) -> (r: Option<ColorMode>)
    ensures
        r == named_mode(s@),
{
    if same_text(s, "auto") {
        Some(ColorMode::Auto)
    } else if same_text(s, "always") {
        Some(ColorMode::Always)
    } else if same_text(s, "never") {
        Some(ColorMode::Never)
    } else {
        None
    }
}

/// The mode that a command line asks for: the first valid `--color`, its
/// value behind `=` or in the argument that follows.
pub open spec fn scanned_mode(args: Seq<Seq<char>>) -> ColorMode
    decreases args.len(),
{
    if args.len() == 0 {
        ColorMode::Auto
    } else if starts_with(args[0], "--color="@) {
        match named_mode(args[0].skip("--color="@.len() as int)) {
            Some(m) => m,
            None => scanned_mode(args.skip(1)),
        }
    } else if args[0] == "--color"@ {
        if args.len() == 1 {
            ColorMode::Auto
        } else {
            match named_mode(args[1]) {
                Some(m) => m,
                None => scanned_mode(args.skip(2)),
            }
        }
    } else {
        scanned_mode(args.skip(1))
    }
}

/// The mode that the arguments behind the program's name ask for. It is read
/// before they are parsed, so that help and usage errors are styled too.
pub fn detect_color_mode(args: &Vec<String>) -> (r: ColorMode)
    ensures
        r == scanned_mode(texts(args@)),
{
    let len: usize = args.len();
    let prefix = chars_of("--color=");
    let mut i: usize = 0;
    proof {
        assert(texts(args@).skip(0) =~= texts(args@));
    }
    while i < len
        invariant
            i <= len == args@.len(),
            prefix@ == "--color="@,
            scanned_mode(texts(args@)) == scanned_mode(texts(args@).skip(i as int)),
        decreases len - i,
    {
        let ghost rest = texts(args@).skip(i as int);
        proof {
            assert(rest[0] == args@[i as int]@);
            assert(rest.skip(1) =~= texts(args@).skip(i + 1));
            if i + 1 < len {
                assert(rest[1] == args@[i + 1]@);
                assert(rest.skip(2) =~= texts(args@).skip(i + 2));
            }
        }
        let v = chars_of(args[i].as_str());
        if has_prefix(&v, &prefix) {
            let value = string_of(&v, prefix.len(), v.len());
            proof {
                assert(v@.subrange(prefix@.len() as int, v@.len() as int) =~= v@.skip(
                    prefix@.len() as int,
                ));
            }
            match parse(value.as_str()) {
                Some(m) => {
                    return m;
                },
                None => {},
            }
            i = i + 1;
        } else if same_text(args[i].as_str(), "--color") {
            if i + 1 == len {
                return ColorMode::Auto;
            }
            match parse(args[i + 1].as_str()) {
                Some(m) => {
                    return m;
                },
                None => {},
            }
            i = i + 2;
        } else {
            i = i + 1;
        }
    }
    ColorMode::Auto
}

/// `console::set_colors_enabled`: switches colours on stdout for the process.
/// Nothing is stated of it: what it changes is seen through
/// `console::colors_enabled` alone.
#[verifier::external_body]
fn set_colors(on: bool) {
    console::set_colors_enabled(on)
}

/// `console::colors_enabled`: whether stdout takes colours. It depends on the
/// terminal and the environment, so nothing is stated of the result.
#[verifier::external_body]
fn terminal_takes_colors() -> (r: bool) {
    console::colors_enabled()
}

/// The styler of a mode; `terminal` is whether the terminal takes colours,
/// which decides in `Auto`.
pub fn styler_for(mode: ColorMode, terminal: bool) -> (r: Styler)
    ensures
        r.colored() == (match mode {
            ColorMode::Always => true,
            ColorMode::Never => false,
            ColorMode::Auto => terminal,
        }),
{
    match mode {
        ColorMode::Always => Styler { enabled: true },
        ColorMode::Never => Styler { enabled: false },
        ColorMode::Auto => Styler { enabled: terminal },
    }
}

/// Applies the mode to the process and gives the styler that goes with it.
/// In `Auto` the terminal decides; what it decides is left open.
pub fn apply_color_mode(mode: ColorMode) -> (r: Styler)
    ensures
        mode == ColorMode::Always ==> r.colored(),
        mode == ColorMode::Never ==> !r.colored(),
{
    let terminal = match mode {
        ColorMode::Always => {
            set_colors(true);
            true
        },
        ColorMode::Never => {
            set_colors(false);
            false
        },
        ColorMode::Auto => terminal_takes_colors(),
    };
    styler_for(mode, terminal)
}

/// What a piece of text is to the reader.
#[derive(Clone, Copy, Debug, PartialEq, Eq, Structural)]
pub enum Tone {
    /// As it is.
    Plain,
    /// A section header.
    Banner,
    /// An important value.
    Highlight,
    Good,
    Warn,
    Bad,
    /// Neutral status.
    Info,
    /// A hint.
    Dim,
}

impl Tone {
    /// The style as `console` spells it.
    pub open spec fn dotted(self) -> Seq<char> {
        match self {
            Tone::Plain => ""@,
            Tone::Banner => "bold.cyan"@,
            Tone::Highlight => "bold.bright.white"@,
            Tone::Good => "bold.green"@,
            Tone::Warn => "yellow"@,
            Tone::Bad => "bold.red"@,
            Tone::Info => "cyan"@,
            Tone::Dim => "dim"@,
        }
    }

    fn spelled(self) -> (r: &'static str)
        ensures
            r@ == self.dotted(),
    {
        match self {
            Tone::Plain => "",
            Tone::Banner => "bold.cyan",
            Tone::Highlight => "bold.bright.white",
            Tone::Good => "bold.green",
            Tone::Warn => "yellow",
            Tone::Bad => "bold.red",
            Tone::Info => "cyan",
            Tone::Dim => "dim",
        }
    }

    /// The escape sequence that switches the style on.
    pub open spec fn escape(self) -> Seq<char> {
        match self {
            Tone::Plain => ""@,
            Tone::Banner => "\x1b[36m\x1b[1m"@,
            Tone::Highlight => "\x1b[38;5;15m\x1b[1m"@,
            Tone::Good => "\x1b[32m\x1b[1m"@,
            Tone::Warn => "\x1b[33m"@,
            Tone::Bad => "\x1b[31m\x1b[1m"@,
            Tone::Info => "\x1b[36m"@,
            Tone::Dim => "\x1b[2m"@,
        }
    }
}

/// The text with a style switched on before it and off behind it.
pub open spec fn painted(tone: Tone, text: Seq<char>) -> Seq<char> {
    if tone == Tone::Plain {
        text
    } else {
        tone.escape() + text + "\x1b[0m"@
    }
}

/// `console::Style::from_dotted_str`, `force_styling`, `apply_to` and the
/// result's `Display`: the SGR sequence of the colour (`ESC[3Nm`, a bright
/// one `ESC[38;5;Nm`), then those of the attributes, the text, and `ESC[0m`.
/// Stated of the styles that `Tone` spells.
#[verifier::external_body]
fn styled(dotted: &str, text: &str) -> (r: String)
    ensures
        forall|tone: Tone| dotted@ == #[trigger] tone.dotted() ==> r@ == painted(tone, text@),
{
    console::Style::from_dotted_str(dotted).force_styling(true).apply_to(text).to_string()
}

/// Applies styles where colours are on, and hands text through elsewhere.
#[derive(Clone, Copy, Debug)]
pub struct Styler {
    enabled: bool,
}

impl Styler {
    /// Whether colours are on.
    pub closed spec fn colored(self) -> bool {
        self.enabled
    }

    /// The text in a tone.
    pub open spec fn shown(self, tone: Tone, text: Seq<char>) -> Seq<char> {
        if self.colored() {
            painted(tone, text)
        } else {
            text
        }
    }

    /// The text in a tone.
    pub fn apply(&self, tone: Tone, text: &str) -> (r: String)
        ensures
            r@ == self.shown(tone, text@),
    {
        if self.enabled {
            styled(tone.spelled(), text)
        } else {
            text.to_owned()
        }
    }

    /// Section headers and the program's banner (bold cyan).
    pub fn banner(&self, text: &str) -> (r: String)
        ensures
            r@ == self.shown(Tone::Banner, text@),
    {
        self.apply(Tone::Banner, text)
    }

    /// Important values, such as an id (bold bright white).
    pub fn highlight(&self, text: &str) -> (r: String)
        ensures
            r@ == self.shown(Tone::Highlight, text@),
    {
        self.apply(Tone::Highlight, text)
    }

    /// Success (bold green).
    pub fn ok(&self, text: &str) -> (r: String)
        ensures
            r@ == self.shown(Tone::Good, text@),
    {
        self.apply(Tone::Good, text)
    }

    /// Warnings (yellow).
    pub fn warn(&self, text: &str) -> (r: String)
        ensures
            r@ == self.shown(Tone::Warn, text@),
    {
        self.apply(Tone::Warn, text)
    }

    /// Errors (bold red).
    pub fn err(&self, text: &str) -> (r: String)
        ensures
            r@ == self.shown(Tone::Bad, text@),
    {
        self.apply(Tone::Bad, text)
    }

    /// Neutral status (cyan).
    pub fn info(&self, text: &str) -> (r: String)
        ensures
            r@ == self.shown(Tone::Info, text@),
    {
        self.apply(Tone::Info, text)
    }

    /// Hints (dim).
    pub fn dim(&self, text: &str) -> (r: String)
        ensures
            r@ == self.shown(Tone::Dim, text@),
    {
        self.apply(Tone::Dim, text)
    }
}

/// A line of output: how far it is indented, its tone and its text.
#[derive(Debug)]
pub struct Line {
    pub indent: u8,
    pub tone: Tone,
    pub text: String,
}

impl View for Line {
    type V = (u8, Tone, Seq<char>);

    open spec fn view(&self) -> (u8, Tone, Seq<char>) {
        (self.indent, self.tone, self.text@)
    }
}

/// Lines as plain values.
pub open spec fn lines_of(v: Seq<Line>) -> Seq<(u8, Tone, Seq<char>)> {
    v.map_values(|l: Line| l@)
}

/// Adds a line.
pub fn put(out: &mut Vec<Line>, indent: u8, tone: Tone, text: String)
    ensures
        lines_of(final(out)@) == lines_of(old(out)@).push((indent, tone, text@)),
{
    let ghost before = lines_of(out@);
    let ghost t = text@;
    out.push(Line { indent, tone, text });
    proof {
        assert(lines_of(out@) =~= before.push((indent, tone, t)));
    }
}

/// `n` spaces.
pub open spec fn blanks(n: nat) -> Seq<char> {
    Seq::new(n, |i: int| ' ')
}

impl Line {
    /// The line as it is printed.
    pub fn render(&self, styler: Styler) -> (r: String)
        ensures
            r@ == blanks(self.indent as nat) + styler.shown(self.tone, self.text@),
    {
        let mut out = String::new();
        let mut i: u8 = 0;
        while i < self.indent
            invariant
                i <= self.indent,
                out@ == blanks(i as nat),
            decreases self.indent - i,
        {
            out.push(' ');
            i = i + 1;
            proof {
                assert(out@ =~= blanks(i as nat));
            }
        }
        out.append(styler.apply(self.tone, self.text.as_str()).as_str());
        out
    }
}

proof fn lemma_skip_front(args: Seq<Seq<char>>, k: int)
    requires
        0 <= k <= args.len(),
        forall|j: int| 0 <= j < k ==> !starts_with(#[trigger] args[j], "--color"@),
    ensures
        scanned_mode(args) == scanned_mode(args.skip(k)),
    decreases k,
{
    if k == 0 {
        assert(args.skip(0) =~= args);
    } else {
        reveal_strlit("--color=");
        reveal_strlit("--color");
        let head = args[0];
        assert(!starts_with(head, "--color"@));
        if starts_with(head, "--color="@) {
            assert(head.take(7) =~= "--color="@.take(7));
            assert("--color="@.take(7) =~= "--color"@);
        }
        if head == "--color"@ {
            assert(head.take(7) =~= head);
        }
        let rest = args.skip(1);
        assert forall|j: int| 0 <= j < k - 1 implies !starts_with(#[trigger] rest[j], "--color"@) by {
            assert(rest[j] == args[j + 1]);
        }
        lemma_skip_front(rest, k - 1);
        assert(rest.skip(k - 1) =~= args.skip(k));
    }
}

/// The first `--color` counts, wherever it stands behind arguments of another
/// kind and whatever follows: its value may stand behind an equals sign or in
/// the argument behind it, and is one of the three words.
pub proof fn law_first_color_option_counts(
    args: Vec<String>,
    k: int,
    mode: ColorMode,
    word: Seq<char>,
    r: ColorMode,
)
    requires
        call_ensures(detect_color_mode, (&args,), r),
        0 <= k <= args@.len(),
        forall|j: int| 0 <= j < k ==> !starts_with((#[trigger] args@[j])@, "--color"@),
        word == (match mode {
            ColorMode::Auto => "auto"@,
            ColorMode::Always => "always"@,
            ColorMode::Never => "never"@,
        }),
    ensures
        k == args@.len() ==> r == ColorMode::Auto,
        k < args@.len() && args@[k]@ == "--color="@ + word ==> r == mode,
        k + 1 < args@.len() && args@[k]@ == "--color"@ && args@[k + 1]@ == word ==> r == mode,
{
    reveal_strlit("auto");
    reveal_strlit("always");
    reveal_strlit("never");
    reveal_strlit("--color=");
    reveal_strlit("--color");
    let t = texts(args@);
    assert forall|j: int| 0 <= j < k implies !starts_with(#[trigger] t[j], "--color"@) by {
        assert(t[j] == args@[j]@);
    }
    lemma_skip_front(t, k);
    let rest = t.skip(k);
    assert("auto"@.len() == 4 && "always"@.len() == 6 && "never"@.len() == 5);
    assert(named_mode(word) == Some(mode));
    if k < args@.len() {
        assert(rest[0] == args@[k]@);
        if args@[k]@ == "--color="@ + word {
            assert(rest[0].take(8) =~= "--color="@);
            assert(rest[0].skip(8) =~= word);
        }
        if k + 1 < args@.len() && args@[k]@ == "--color"@ {
            assert(rest[1] == args@[k + 1]@);
        }
    }
}

} // verus!
