//! A whole script: how its text is read, section by section and line by
//! line, and how it is written.

use crate::assoc::put;
use crate::error::{Error, ErrorView};
use crate::events::{event_format_of, events_text, EventFormat, Events, EventsView};
use crate::fonts::Fonts;
use crate::graphics::Graphics;
use crate::parser::{event_line, name_line, script_line, style_line, Context, SsaParser};
use crate::script_info::{
    key_name, script_info_text, script_type_name, script_type_of, str_at, Key, ScriptInfo,
    ScriptType,
};
use crate::styles::{style_format_of, styles_text, StyleFormat, V4Styles, V4StylesView};
use crate::text::{
    eq_ignore_case, is_text_ignore_case, push_line, slice, split, split_chars, splitn, splitn_chars,
    to_chars, to_text, trim, trimmed, views,
};
use crate::value::ValueView;
use crate::version::Version;
use encoding_rs::UTF_8;
use vstd::prelude::*;
use vstd::string::*;

verus! {

/// A script: its version and its sections.
#[derive(Debug, PartialEq, Eq)]
pub struct File {
    pub version: Version,
    pub script: ScriptInfo,
    pub styles: V4Styles,
    pub events: Events,
    pub fonts: Fonts,
    pub graphics: Graphics,
}

/// A [`File`] as the models of its sections.
pub struct FileView {
    pub version: Version,
    pub script: Seq<(Seq<char>, ValueView)>,
    pub styles: V4StylesView,
    pub events: EventsView,
    pub fonts: Seq<Seq<char>>,
    pub graphics: Seq<Seq<char>>,
}

impl View for File {
    type V = FileView;

    open spec fn view(&self) -> FileView {
        FileView {
            version: self.version,
            script: self.script@,
            styles: self.styles@,
            events: self.events@,
            fonts: self.fonts@,
            graphics: self.graphics@,
        }
    }
}

impl Default for File {
    /// A script with nothing in it; see [`File::new`].
    fn default() -> (r: Self)
        ensures
            r@ == start().file,
    {
        File::new()
    }
}

impl Clone for File {
    fn clone(&self) -> (r: Self)
        ensures
            r@ == self@,
    {
        File {
            version: self.version,
            script: self.script.clone(),
            styles: self.styles.clone(),
            events: self.events.clone(),
            fonts: self.fonts.clone(),
            graphics: self.graphics.clone(),
        }
    }
}

/// The sections that a script can have.
#[derive(Debug, Clone, Copy, PartialEq, Eq, Structural)]
pub enum Section {
    ScriptInfo,
    V4Styles,
    V4PlusStyles,
    Events,
    Fonts,
    Graphics,
}

/// The section that the line `line` opens: a name in square brackets, in any
/// case of letters, with or without white space inside the brackets.
pub open spec fn section_of(line: Seq<char>) -> Option<Section> {
    if line.len() >= 2 && line[0] == '[' && line.last() == ']' {
        let name = trim(line.subrange(1, line.len() - 1));
        if eq_ignore_case(name, "script info"@) {
            Some(Section::ScriptInfo)
        } else if eq_ignore_case(name, "v4 styles"@) {
            Some(Section::V4Styles)
        } else if eq_ignore_case(name, "v4+ styles"@) {
            Some(Section::V4PlusStyles)
        } else if eq_ignore_case(name, "events"@) {
            Some(Section::Events)
        } else if eq_ignore_case(name, "fonts"@) {
            Some(Section::Fonts)
        } else if eq_ignore_case(name, "graphics"@) {
            Some(Section::Graphics)
        } else {
            None
        }
    } else {
        None
    }
}

/// The lines of `text`: what stands between line feeds. A line feed at the
/// very end ends the last line and begins no further one.
pub open spec fn lines_of(text: Seq<char>) -> Seq<Seq<char>> {
    let raw = split(text, '\n');
    if raw.len() > 0 && raw.last().len() == 0 {
        raw.drop_last()
    } else {
        raw
    }
}

/// The columns that the names `tokens` stand for, each taken without the
/// white space around it; nothing where one of them names no column.
pub open spec fn columns_of<T>(
    tokens: Seq<Seq<char>>,
    read: spec_fn(Seq<char>) -> Option<T>,
) -> Option<Seq<T>>
    decreases tokens.len(),
{
    if tokens.len() == 0 {
        Some(Seq::empty())
    } else {
        match columns_of(tokens.drop_last(), read) {
            None => None,
            Some(columns) => match read(trim(tokens.last())) {
                None => None,
                Some(c) => Some(columns.push(c)),
            },
        }
    }
}

/// What the error for an unknown column of a style expects: the names of
/// all columns, and what was found instead.
pub const STYLE_COLUMN_NAMES: &'static str =
    "Name, Fontname, Fontsize, PrimaryColour, SecondaryColour, TertiaryColour, \
    OutlineColour, BackColour, Bold, Italic, Underline, StrikeOut, ScaleX, ScaleY, Spacing, \
    Angle, BorderStyle, Outline, Shadow, Alignment, MarginL, MarginR, MarginV, AlphaLevel, \
    Encoding VariantNotFound";

/// What the error for an unknown column of an event expects.
pub const EVENT_COLUMN_NAMES: &'static str =
    "Layer, Marked, Start, End, Style, Name, MarginL, MarginR, MarginV, Effect, Text \
    VariantNotFound";

/// The names of all columns of a style, as the error for an unknown column
/// lists them.
pub open spec fn style_column_names() -> Seq<char> {
    STYLE_COLUMN_NAMES@
}

/// The names of all columns of an event, as the error for an unknown column
/// lists them.
pub open spec fn event_column_names() -> Seq<char> {
    EVENT_COLUMN_NAMES@
}

/// [`style_format_of`] as a function.
pub open spec fn style_namer() -> spec_fn(Seq<char>) -> Option<StyleFormat> {
    |s: Seq<char>| style_format_of(s)
}

/// [`event_format_of`] as a function.
pub open spec fn event_namer() -> spec_fn(Seq<char>) -> Option<EventFormat> {
    |s: Seq<char>| event_format_of(s)
}

/// The columns that the line `header` declares: the word `Format`, in any
/// case of letters, a colon, and the names of the columns, separated by
/// commas. `kind` and `shape` are the error for a line without a colon,
/// `names` is the error for a name that is not that of a column.
pub open spec fn header_of<T>(
    header: Seq<char>,
    read: spec_fn(Seq<char>) -> Option<T>,
    kind: Seq<char>,
    shape: Seq<char>,
    names: Seq<char>,
) -> Result<Seq<T>, ErrorView> {
    let parts = splitn(header, 2, ':');
    if parts.len() < 2 {
        Err(ErrorView::ParseError { ty: kind, msg: shape })
    } else if !eq_ignore_case(trim(parts[0]), "format"@) {
        Err(ErrorView::InvalidType { expected: "format"@ })
    } else {
        match columns_of(split(parts[1], ','), read) {
            Some(columns) => Ok(columns),
            None => Err(ErrorView::InvalidType { expected: names }),
        }
    }
}

/// The columns that the header line of a styles section declares.
pub open spec fn style_header_of(header: Seq<char>) -> Result<Seq<StyleFormat>, ErrorView> {
    header_of(
        header,
        style_namer(),
        "V4Styles"@,
        "invalid style header format"@,
        style_column_names(),
    )
}

/// The columns that the header line of the events section declares.
pub open spec fn event_header_of(header: Seq<char>) -> Result<Seq<EventFormat>, ErrorView> {
    header_of(
        header,
        event_namer(),
        "Events"@,
        "invalid event header format"@,
        event_column_names(),
    )
}

/// Where the reading of a script stands: the section that the next line
/// belongs to, and what is read so far.
pub struct Progress {
    pub context: Context,
    pub file: FileView,
}

/// Where the reading stands before the first line: outside every section,
/// with nothing read, the version `v4.00+` and its columns.
pub open spec fn start() -> Progress {
    Progress {
        context: Context::Outside,
        file: FileView {
            version: Version::V4Plus,
            script: Seq::empty(),
            styles: V4StylesView {
                order: crate::styles::default_style_order(),
                styles: Seq::empty(),
            },
            events: EventsView {
                order: crate::events::default_event_order(),
                events: Seq::empty(),
            },
            fonts: Seq::empty(),
            graphics: Seq::empty(),
        },
    }
}

/// The error for a section that ends the text before its header line;
/// `msg` says which.
pub open spec fn missing_header(msg: Seq<char>) -> ErrorView {
    ErrorView::ParseError { ty: "header"@, msg }
}

/// Where the reading stands after the line `line`, which opens no section,
/// was handed to the section it belongs to. Outside every section a line is
/// dropped.
pub open spec fn feed(p: Progress, line: Seq<char>) -> Result<Progress, ErrorView> {
    match p.context {
        Context::Outside => Ok(p),
        Context::ParseScriptInfo => match script_line(p.file.script, line) {
            Ok(script) => Ok(Progress { file: FileView { script, ..p.file }, ..p }),
            Err(e) => Err(e),
        },
        Context::ParseStyles => match style_line(p.file.styles, line) {
            Ok(styles) => Ok(Progress { file: FileView { styles, ..p.file }, ..p }),
            Err(e) => Err(e),
        },
        Context::ParseEvents => match event_line(p.file.events, line) {
            Ok(events) => Ok(Progress { file: FileView { events, ..p.file }, ..p }),
            Err(e) => Err(e),
        },
        Context::ParseFonts => Ok(
            Progress {
                file: FileView { fonts: name_line(p.file.fonts, "fontname:"@, line), ..p.file },
                ..p
            },
        ),
        Context::ParseGraphics => Ok(
            Progress {
                file: FileView {
                    graphics: name_line(p.file.graphics, "filename:"@, line),
                    ..p.file
                },
                ..p
            },
        ),
    }
}

/// Where the reading stands after a styles section was opened whose header
/// line is `header`: the styles read before are gone, and the columns are
/// those that the header declares, `Name` among them.
pub open spec fn open_styles(p: Progress, version: Version, header: Seq<char>) -> Result<
    Progress,
    ErrorView,
> {
    match style_header_of(header) {
        Err(e) => Err(e),
        Ok(order) => if !order.contains(StyleFormat::Name) {
            Err(ErrorView::V4StyleNameNotFound)
        } else {
            Ok(
                Progress {
                    context: Context::ParseStyles,
                    file: FileView {
                        version,
                        styles: V4StylesView { order, styles: Seq::empty() },
                        ..p.file
                    },
                },
            )
        },
    }
}

/// Where the reading stands after the events section was opened whose
/// header line is `header`.
pub open spec fn open_events(p: Progress, header: Seq<char>) -> Result<Progress, ErrorView> {
    match event_header_of(header) {
        Err(e) => Err(e),
        Ok(order) => Ok(
            Progress {
                context: Context::ParseEvents,
                file: FileView { events: EventsView { order, events: Seq::empty() }, ..p.file },
            },
        ),
    }
}

/// Where the reading stands after the lines of `lines` from `at` on, having
/// stood at `p` before. Each line is taken without the white space around
/// it, and an empty one is passed over. A line that opens a styles or an
/// events section takes the line after it, as it is, for the header. A line
/// in brackets that opens no known section is handed on like any other. The
/// first error ends the reading.
pub open spec fn run(lines: Seq<Seq<char>>, at: int, p: Progress) -> Result<Progress, ErrorView>
    decreases lines.len() - at,
{
    if at < 0 || at >= lines.len() {
        Ok(p)
    } else {
        let line = trim(lines[at]);
        if line.len() == 0 {
            run(lines, at + 1, p)
        } else {
            match section_of(line) {
                Some(Section::ScriptInfo) => run(
                    lines,
                    at + 1,
                    Progress { context: Context::ParseScriptInfo, ..p },
                ),
                Some(Section::Fonts) => run(
                    lines,
                    at + 1,
                    Progress { context: Context::ParseFonts, ..p },
                ),
                Some(Section::Graphics) => run(
                    lines,
                    at + 1,
                    Progress { context: Context::ParseGraphics, ..p },
                ),
                Some(Section::V4Styles) => if at + 1 >= lines.len() {
                    Err(missing_header("missing v4 styles header"@))
                } else {
                    match open_styles(p, Version::V4, lines[at + 1]) {
                        Err(e) => Err(e),
                        Ok(next) => run(lines, at + 2, next),
                    }
                },
                Some(Section::V4PlusStyles) => if at + 1 >= lines.len() {
                    Err(missing_header("missing v4+ styles header"@))
                } else {
                    match open_styles(p, Version::V4Plus, lines[at + 1]) {
                        Err(e) => Err(e),
                        Ok(next) => run(lines, at + 2, next),
                    }
                },
                Some(Section::Events) => if at + 1 >= lines.len() {
                    Err(missing_header("missing events header"@))
                } else {
                    match open_events(p, lines[at + 1]) {
                        Err(e) => Err(e),
                        Ok(next) => run(lines, at + 2, next),
                    }
                },
                None => match feed(p, line) {
                    Err(e) => Err(e),
                    Ok(next) => run(lines, at + 1, next),
                },
            }
        }
    }
}

/// The script type that the properties `script` declare.
pub open spec fn declared_type(script: Seq<(Seq<char>, ValueView)>) -> Option<ScriptType> {
    match str_at(script, key_name(Key::ScriptType)) {
        Some(s) => match script_type_of(s) {
            Ok(t) => Some(t),
            Err(_) => None,
        },
        None => None,
    }
}

/// The script type of a version.
pub open spec fn type_of_version(version: Version) -> ScriptType {
    match version {
        Version::V4 => ScriptType::V4,
        Version::V4Plus => ScriptType::V4Plus,
    }
}

/// The file `f` with its script type set from its version, where the script
/// info declares none.
pub open spec fn with_script_type(f: FileView) -> FileView {
    if declared_type(f.script) is None {
        FileView {
            script: put(
                f.script,
                key_name(Key::ScriptType),
                ValueView::Str(script_type_name(type_of_version(f.version))),
            ),
            ..f
        }
    } else {
        f
    }
}

/// The script that the text `text` stands for.
pub open spec fn file_of(text: Seq<char>) -> Result<FileView, ErrorView> {
    match run(lines_of(text), 0, start()) {
        Err(e) => Err(e),
        Ok(p) => Ok(with_script_type(p.file)),
    }
}

/// Reading keeps the column `Name` among the declared columns of the styles.
proof fn lemma_run_keeps_name(lines: Seq<Seq<char>>, at: int, p: Progress)
    requires
        p.file.styles.wf(),
    ensures
        run(lines, at, p) is Ok ==> run(lines, at, p)->Ok_0.file.styles.wf(),
    decreases lines.len() - at,
{
    if 0 <= at < lines.len() {
        let line = trim(lines[at]);
        if line.len() == 0 {
            lemma_run_keeps_name(lines, at + 1, p);
        } else {
            match section_of(line) {
                Some(Section::ScriptInfo) => {
                    lemma_run_keeps_name(
                        lines,
                        at + 1,
                        Progress { context: Context::ParseScriptInfo, ..p },
                    );
                },
                Some(Section::Fonts) => {
                    lemma_run_keeps_name(
                        lines,
                        at + 1,
                        Progress { context: Context::ParseFonts, ..p },
                    );
                },
                Some(Section::Graphics) => {
                    lemma_run_keeps_name(
                        lines,
                        at + 1,
                        Progress { context: Context::ParseGraphics, ..p },
                    );
                },
                Some(Section::V4Styles) => {
                    if at + 1 < lines.len() {
                        match open_styles(p, Version::V4, lines[at + 1]) {
                            Ok(next) => {
                                lemma_run_keeps_name(lines, at + 2, next);
                            },
                            Err(_) => {},
                        }
                    }
                },
                Some(Section::V4PlusStyles) => {
                    if at + 1 < lines.len() {
                        match open_styles(p, Version::V4Plus, lines[at + 1]) {
                            Ok(next) => {
                                lemma_run_keeps_name(lines, at + 2, next);
                            },
                            Err(_) => {},
                        }
                    }
                },
                Some(Section::Events) => {
                    if at + 1 < lines.len() {
                        match open_events(p, lines[at + 1]) {
                            Ok(next) => {
                                lemma_run_keeps_name(lines, at + 2, next);
                            },
                            Err(_) => {},
                        }
                    }
                },
                None => {
                    match feed(p, line) {
                        Ok(next) => {
                            lemma_run_keeps_name(lines, at + 1, next);
                        },
                        Err(_) => {},
                    }
                },
            }
        }
    }
}

/// In every script that is read, the column `Name` is among the declared
/// columns of the styles, and the script info declares a script type.
pub proof fn lemma_file_is_well_formed(text: Seq<char>)
    requires
        file_of(text) is Ok,
    ensures
        file_of(text)->Ok_0.styles.wf(),
        declared_type(file_of(text)->Ok_0.script) is Some,
{
    assert(start().file.styles.order[0] == StyleFormat::Name);
    lemma_run_keeps_name(lines_of(text), 0, start());
    let read = run(lines_of(text), 0, start())->Ok_0.file;
    if declared_type(read.script) is None {
        let name = script_type_name(type_of_version(read.version));
        crate::assoc::lemma_put(read.script, key_name(Key::ScriptType), ValueView::Str(name));
    }
}

/// The line that opens the styles section of a version.
pub open spec fn styles_heading(version: Version) -> Seq<char> {
    match version {
        Version::V4 => "[V4 Styles]"@,
        Version::V4Plus => "[V4+ Styles]"@,
    }
}

/// The text of the script `f`: the script info, the styles and the events,
/// each under its heading and followed by an empty line. Fonts and graphics
/// are not written.
pub open spec fn file_text(f: FileView) -> Seq<char> {
    "[Script Info]"@ + seq!['\n'] + script_info_text(f.script) + seq!['\n'] + styles_heading(
        f.version,
    ) + seq!['\n'] + styles_text(f.styles) + seq!['\n'] + "[Events]"@ + seq!['\n'] + events_text(
        f.events,
    ) + seq!['\n']
}

/// The text that the bytes `bytes` are decoded to, and whether a malformed
/// sequence was among them. A byte order mark at the beginning decides how
/// they are decoded, and is no part of the text; without one they are taken
/// for UTF-8.
pub uninterp spec fn utf8_decoded(bytes: Seq<u8>) -> (Seq<char>, bool);

/// `Encoding::decode` on `UTF_8`: decodes the bytes after sniffing for a byte
/// order mark, puts the replacement character for each malformed sequence,
/// and says whether there was one. The bound keeps the size of the buffer
/// that it allocates, three bytes for each byte read and a few more, within
/// `usize`.
#[verifier::external_body]
fn decode_utf8(bytes: &[u8]) -> (r: (String, bool))
    requires
        bytes@.len() <= usize::MAX / 4,
    ensures
        (r.0@, r.1) == utf8_decoded(bytes@),
{
    let (text, _, had_errors) = UTF_8.decode(bytes);
    (text.into_owned(), had_errors)
}

/// The lines of `chars`.
fn split_lines(chars: &Vec<char>) -> (r: Vec<Vec<char>>)
    ensures
        views(r@) == lines_of(chars@),
{
    let mut raw = split_chars(chars, '\n');
    let n = raw.len();
    if n > 0 && raw[n - 1].len() == 0 {
        let ghost before = views(raw@);
        raw.pop();
        assert(views(raw@) =~= before.drop_last());
    }
    raw
}

/// The section that the characters of `line` open.
fn section_name(line: &Vec<char>) -> (r: Option<Section>)
    ensures
        r == section_of(line@),
{
    let n = line.len();
    if n >= 2 && line[0] == '[' && line[n - 1] == ']' {
        let name = trimmed(&slice(line, 1, n - 1));
        if is_text_ignore_case(&name, "script info") {
            Some(Section::ScriptInfo)
        } else if is_text_ignore_case(&name, "v4 styles") {
            Some(Section::V4Styles)
        } else if is_text_ignore_case(&name, "v4+ styles") {
            Some(Section::V4PlusStyles)
        } else if is_text_ignore_case(&name, "events") {
            Some(Section::Events)
        } else if is_text_ignore_case(&name, "fonts") {
            Some(Section::Fonts)
        } else if is_text_ignore_case(&name, "graphics") {
            Some(Section::Graphics)
        } else {
            None
        }
    } else {
        None
    }
}

/// A name that is not that of a column leaves no columns, however many
/// names follow.
proof fn lemma_columns_stop<T>(
    tokens: Seq<Seq<char>>,
    k: int,
    read: spec_fn(Seq<char>) -> Option<T>,
)
    requires
        0 <= k <= tokens.len(),
        columns_of(tokens.take(k), read) is None,
    ensures
        columns_of(tokens, read) is None,
    decreases tokens.len() - k,
{
    if k < tokens.len() {
        assert(tokens.take(k + 1).drop_last() =~= tokens.take(k));
        lemma_columns_stop(tokens, k + 1, read);
    } else {
        assert(tokens.take(k) =~= tokens);
    }
}

/// The style columns that the names `tokens` stand for.
fn style_columns(tokens: &Vec<Vec<char>>) -> (r: Option<Vec<StyleFormat>>)
    ensures
        match r {
            Some(v) => columns_of(views(tokens@), style_namer()) == Some(v@),
            None => columns_of(views(tokens@), style_namer()) is None,
        },
{
    let ghost all = views(tokens@);
    let mut out: Vec<StyleFormat> = Vec::new();
    let mut i: usize = 0;
    assert(all.take(0) =~= Seq::<Seq<char>>::empty());
    while i < tokens.len()
        invariant
            i <= tokens.len(),
            all == views(tokens@),
            columns_of(all.take(i as int), style_namer()) == Some(out@),
        decreases tokens.len() - i,
    {
        let name = to_text(&trimmed(&tokens[i]));
        assert(all.take(i + 1).drop_last() =~= all.take(i as int));
        assert(all.take(i + 1).last() == tokens@[i as int]@);
        match StyleFormat::from_name(name.as_str()) {
            Some(f) => {
                out.push(f);
            },
            None => {
                proof {
                    assert(style_namer()(trim(all.take(i + 1).last())) is None);
                    lemma_columns_stop(all, i + 1, style_namer());
                }
                return None;
            },
        }
        i += 1;
    }
    assert(all.take(tokens.len() as int) =~= all);
    Some(out)
}

/// The event columns that the names `tokens` stand for.
fn event_columns(tokens: &Vec<Vec<char>>) -> (r: Option<Vec<EventFormat>>)
    ensures
        match r {
            Some(v) => columns_of(views(tokens@), event_namer()) == Some(v@),
            None => columns_of(views(tokens@), event_namer()) is None,
        },
{
    let ghost all = views(tokens@);
    let mut out: Vec<EventFormat> = Vec::new();
    let mut i: usize = 0;
    assert(all.take(0) =~= Seq::<Seq<char>>::empty());
    while i < tokens.len()
        invariant
            i <= tokens.len(),
            all == views(tokens@),
            columns_of(all.take(i as int), event_namer()) == Some(out@),
        decreases tokens.len() - i,
    {
        let name = to_text(&trimmed(&tokens[i]));
        assert(all.take(i + 1).drop_last() =~= all.take(i as int));
        assert(all.take(i + 1).last() == tokens@[i as int]@);
        match EventFormat::from_name(name.as_str()) {
            Some(f) => {
                out.push(f);
            },
            None => {
                proof {
                    assert(event_namer()(trim(all.take(i + 1).last())) is None);
                    lemma_columns_stop(all, i + 1, event_namer());
                }
                return None;
            },
        }
        i += 1;
    }
    assert(all.take(tokens.len() as int) =~= all);
    Some(out)
}

/// The names after the colon of the header line `header`, where the line
/// has a colon with the word `Format` before it.
fn header_tokens(header: &Vec<char>, kind: &'static str, shape: &str) -> (r: Result<
    Vec<Vec<char>>,
    Error,
>)
    ensures
        ({
            let parts = splitn(header@, 2, ':');
            match r {
                Ok(tokens) => parts.len() >= 2 && eq_ignore_case(trim(parts[0]), "format"@)
                    && views(tokens@) == split(parts[1], ','),
                Err(e) => if parts.len() < 2 {
                    e@ == (ErrorView::ParseError { ty: kind@, msg: shape@ })
                } else {
                    !eq_ignore_case(trim(parts[0]), "format"@) && e@ == (ErrorView::InvalidType {
                        expected: "format"@,
                    })
                },
            }
        }),
{
    let parts = splitn_chars(header, 2, ':');
    if parts.len() < 2 {
        return Err(Error::parse_error(kind, shape));
    }
    if !is_text_ignore_case(&trimmed(&parts[0]), "format") {
        return Err(Error::invalid_type("format"));
    }
    Ok(split_chars(&parts[1], ','))
}

/// Where the reading stands, from the version found and the state of the
/// reader.
pub open spec fn progress_of(version: Version, parser: SsaParser) -> Progress {
    Progress {
        context: parser.context,
        file: FileView {
            version,
            script: parser.script_info@,
            styles: parser.styles@,
            events: parser.events@,
            fonts: parser.fonts@,
            graphics: parser.graphics@,
        },
    }
}

/// Hands a line that opens no section to the section it belongs to.
fn feed_line(parser: &mut SsaParser, version: Version, line: &str) -> (r: Result<(), Error>)
    ensures
        match feed(progress_of(version, *old(parser)), line@) {
            Ok(p) => r is Ok && progress_of(version, *final(parser)) == p,
            Err(e) => r is Err && r->Err_0@ == e,
        },
{
    match parser.context {
        Context::Outside => Ok(()),
        Context::ParseScriptInfo => parser.parse_script_info(line),
        Context::ParseStyles => parser.parse_styles(line),
        Context::ParseEvents => parser.parse_events(line),
        Context::ParseFonts => parser.parse_fonts(line),
        Context::ParseGraphics => parser.parse_graphics(line),
    }
}

/// Opens a styles section with the header line `header`.
fn begin_styles(parser: &mut SsaParser, before: Version, version: Version, header: &str) -> (r:
    Result<(), Error>)
    ensures
        match open_styles(progress_of(before, *old(parser)), version, header@) {
            Ok(p) => r is Ok && progress_of(version, *final(parser)) == p,
            Err(e) => r is Err && r->Err_0@ == e,
        },
{
    let order = match File::parse_style_header(header) {
        Ok(order) => order,
        Err(e) => { return Err(e); },
    };
    let styles = match V4Styles::new(order) {
        Ok(styles) => styles,
        Err(e) => { return Err(e); },
    };
    parser.context = Context::ParseStyles;
    parser.styles = styles;
    Ok(())
}

/// Opens the events section with the header line `header`.
fn begin_events(parser: &mut SsaParser, version: Version, header: &str) -> (r: Result<(), Error>)
    ensures
        match open_events(progress_of(version, *old(parser)), header@) {
            Ok(p) => r is Ok && progress_of(version, *final(parser)) == p,
            Err(e) => r is Err && r->Err_0@ == e,
        },
{
    let order = match File::parse_event_header(header) {
        Ok(order) => order,
        Err(e) => { return Err(e); },
    };
    parser.context = Context::ParseEvents;
    parser.events = Events::new(order);
    Ok(())
}

/// Reads the lines `lines` from the first to the last.
fn drive(lines: &Vec<Vec<char>>) -> (r: Result<(Version, SsaParser), Error>)
    ensures
        match run(views(lines@), 0, start()) {
            Ok(p) => r is Ok && progress_of(r->Ok_0.0, r->Ok_0.1) == p,
            Err(e) => r is Err && r->Err_0@ == e,
        },
{
    let ghost all = views(lines@);
    let mut version = Version::V4Plus;
    let mut parser = SsaParser::new();
    let mut i: usize = 0;
    assert(progress_of(version, parser) == start());
    while i < lines.len()
        invariant
            i <= lines.len(),
            all == views(lines@),
            run(all, 0, start()) == run(all, i as int, progress_of(version, parser)),
        decreases lines.len() - i,
    {
        let ghost here = progress_of(version, parser);
        let line = trimmed(&lines[i]);
        assert(line@ == trim(all[i as int]));
        if line.len() == 0 {
            i += 1;
            continue ;
        }
        match section_name(&line) {
            Some(Section::ScriptInfo) => {
                parser.context = Context::ParseScriptInfo;
                i += 1;
            },
            Some(Section::Fonts) => {
                parser.context = Context::ParseFonts;
                i += 1;
            },
            Some(Section::Graphics) => {
                parser.context = Context::ParseGraphics;
                i += 1;
            },
            Some(Section::V4Styles) => {
                if i + 1 >= lines.len() {
                    return Err(Error::parse_error("header", "missing v4 styles header"));
                }
                let header = to_text(&lines[i + 1]);
                assert(header@ == all[i + 1]);
                match begin_styles(&mut parser, version, Version::V4, header.as_str()) {
                    Ok(()) => {},
                    Err(e) => { return Err(e); },
                }
                version = Version::V4;
                i += 2;
            },
            Some(Section::V4PlusStyles) => {
                if i + 1 >= lines.len() {
                    return Err(Error::parse_error("header", "missing v4+ styles header"));
                }
                let header = to_text(&lines[i + 1]);
                assert(header@ == all[i + 1]);
                match begin_styles(&mut parser, version, Version::V4Plus, header.as_str()) {
                    Ok(()) => {},
                    Err(e) => { return Err(e); },
                }
                version = Version::V4Plus;
                i += 2;
            },
            Some(Section::Events) => {
                if i + 1 >= lines.len() {
                    return Err(Error::parse_error("header", "missing events header"));
                }
                let header = to_text(&lines[i + 1]);
                assert(header@ == all[i + 1]);
                match begin_events(&mut parser, version, header.as_str()) {
                    Ok(()) => {},
                    Err(e) => { return Err(e); },
                }
                i += 2;
            },
            None => {
                let text = to_text(&line);
                match feed_line(&mut parser, version, text.as_str()) {
                    Ok(()) => {},
                    Err(e) => { return Err(e); },
                }
                i += 1;
            },
        }
    }
    Ok((version, parser))
}

impl File {
    /// A script with nothing in it: the version `v4.00+` and its columns.
    pub fn new() -> (r: Self)
        ensures
            r@ == start().file,
    {
        File {
            version: Version::V4Plus,
            script: ScriptInfo::default(),
            styles: V4Styles::default(),
            events: Events::default(),
            fonts: Fonts::new(),
            graphics: Graphics::new(),
        }
    }

    /// Reads the header line of a styles section.
    pub fn parse_style_header(header: &str) -> (r: Result<Vec<StyleFormat>, Error>)
        ensures
            match r {
                Ok(order) => style_header_of(header@) == Ok::<Seq<StyleFormat>, ErrorView>(
                    order@,
                ),
                Err(e) => style_header_of(header@) == Err::<Seq<StyleFormat>, ErrorView>(e@),
            },
    {
        let chars = to_chars(header);
        let tokens = match header_tokens(&chars, "V4Styles", "invalid style header format") {
            Ok(tokens) => tokens,
            Err(e) => { return Err(e); },
        };
        match style_columns(&tokens) {
            Some(order) => Ok(order),
            None => Err(Error::invalid_type(STYLE_COLUMN_NAMES)),
        }
    }

    /// Reads the header line of the events section.
    pub fn parse_event_header(header: &str) -> (r: Result<Vec<EventFormat>, Error>)
        ensures
            match r {
                Ok(order) => event_header_of(header@) == Ok::<Seq<EventFormat>, ErrorView>(
                    order@,
                ),
                Err(e) => event_header_of(header@) == Err::<Seq<EventFormat>, ErrorView>(e@),
            },
    {
        let chars = to_chars(header);
        let tokens = match header_tokens(&chars, "Events", "invalid event header format") {
            Ok(tokens) => tokens,
            Err(e) => { return Err(e); },
        };
        match event_columns(&tokens) {
            Some(order) => Ok(order),
            None => Err(Error::invalid_type(EVENT_COLUMN_NAMES)),
        }
    }

    /// Reads a script from its text.
    pub fn parse_text(text: &str) -> (r: Result<Self, Error>)
        ensures
            match r {
                Ok(f) => file_of(text@) == Ok::<FileView, ErrorView>(f@),
                Err(e) => file_of(text@) == Err::<FileView, ErrorView>(e@),
            },
    {
        let chars = to_chars(text);
        let lines = split_lines(&chars);
        let (version, parser) = match drive(&lines) {
            Ok(done) => done,
            Err(e) => { return Err(e); },
        };
        let SsaParser { context, script_info, styles, events, fonts, graphics } = parser;
        let mut script = script_info;
        if script.get_script_type().is_none() {
            match version {
                Version::V4 => {
                    script.set_script_type(ScriptType::V4);
                },
                Version::V4Plus => {
                    script.set_script_type(ScriptType::V4Plus);
                },
            }
        }
        Ok(File { version, script, styles, events, fonts, graphics })
    }

    /// Reads a script from bytes, which have to be well-formed text.
    pub fn parse(ssa_bytes: &[u8]) -> (r: Result<Self, Error>)
        requires
            ssa_bytes@.len() <= usize::MAX / 4,
        ensures
            match r {
                Ok(f) => !utf8_decoded(ssa_bytes@).1 && file_of(utf8_decoded(ssa_bytes@).0)
                    == Ok::<FileView, ErrorView>(f@),
                Err(e) => if utf8_decoded(ssa_bytes@).1 {
                    e@ == ErrorView::InvalidUTF8Encoding
                } else {
                    file_of(utf8_decoded(ssa_bytes@).0) == Err::<FileView, ErrorView>(e@)
                },
            },
    {
        let (text, had_errors) = decode_utf8(ssa_bytes);
        File::after_decoding(text.as_str(), had_errors)
    }

    /// Reads a script from what the decoder made of its bytes: the text, and
    /// whether a malformed sequence was among the bytes.
    pub fn after_decoding(text: &str, had_errors: bool) -> (r: Result<Self, Error>)
        ensures
            match r {
                Ok(f) => !had_errors && file_of(text@) == Ok::<FileView, ErrorView>(f@),
                Err(e) => if had_errors {
                    e@ == ErrorView::InvalidUTF8Encoding
                } else {
                    file_of(text@) == Err::<FileView, ErrorView>(e@)
                },
            },
    {
        if had_errors {
            return Err(Error::InvalidUTF8Encoding);
        }
        File::parse_text(text)
    }

    /// Reads a script from a string, by way of its bytes.
    pub fn from_str(ssa_str: &str) -> (r: Result<Self, Error>)
        requires
            ssa_str.spec_bytes().len() <= usize::MAX / 4,
        ensures
            match r {
                Ok(f) => !utf8_decoded(ssa_str.spec_bytes()).1 && file_of(
                    utf8_decoded(ssa_str.spec_bytes()).0,
                ) == Ok::<FileView, ErrorView>(f@),
                Err(e) => if utf8_decoded(ssa_str.spec_bytes()).1 {
                    e@ == ErrorView::InvalidUTF8Encoding
                } else {
                    file_of(utf8_decoded(ssa_str.spec_bytes()).0) == Err::<FileView, ErrorView>(
                        e@,
                    )
                },
            },
    {
        File::parse(ssa_str.as_bytes())
    }

    /// The text of the script.
    pub fn to_string(&self) -> (r: Result<String, Error>)
        ensures
            r is Ok,
            r->Ok_0@ == file_text(self@),
    {
        let mut out = String::new();
        push_line(&mut out, "[Script Info]");
        let script = self.script.to_string();
        push_line(&mut out, script.as_str());
        match self.version {
            Version::V4 => {
                push_line(&mut out, "[V4 Styles]");
            },
            Version::V4Plus => {
                push_line(&mut out, "[V4+ Styles]");
            },
        }
        let styles = self.styles.to_string();
        push_line(&mut out, styles.as_str());
        push_line(&mut out, "[Events]");
        let events = self.events.to_string();
        push_line(&mut out, events.as_str());
        assert(out@ =~= file_text(self@));
        Ok(out)
    }
}

} // verus!
