//! The configuration value, its builder and the defaults that installation
//! fills in.

use vstd::prelude::*;
use vstd::string::*;

use crate::level::parser::{directive, failure_message, parse_directive, parse_level};
use crate::level::{target_level_views, TargetLevel, TargetLevelView};
use crate::log_level::DEBUG;
use crate::out_kind::OutKind;
use crate::severity::level_filter_named;
use crate::text::{
    blank, chars_of, copy_opt, is_blank, lemma_pieces_hold_no_separator, lemma_run_end,
    lemma_run_end_is, lemma_split_single, opt_str, opt_text, run_end, scan, split, split_from,
    split_text, texts, CharClass,
};

verus! {

/// The base name that stands in where the running program's own is not known.
pub const SIMPLE_LOG_BASE_NAME: &'static str = "simple_log";

/// What a [`FilterTarget`] holds, as plain values.
pub struct FilterTargetView {
    pub name: Seq<char>,
    pub level: Seq<char>,
}

/// What a [`LogConfig`] holds, as plain values.
pub struct LogConfigView {
    pub path: Option<Seq<char>>,
    pub directory: Option<Seq<char>>,
    pub level: Seq<char>,
    pub size: u64,
    pub out_kind: Seq<OutKind>,
    pub roll_count: u32,
    pub time_format: Option<Seq<char>>,
    pub filter_target: Seq<FilterTargetView>,
}

/// The level of one target, as the directive wrote it.
#[derive(Debug, PartialEq, Eq)]
pub struct FilterTarget {
    name: String,
    level: String,
}

/// A logging configuration.
///
/// `size` is the size in MB at which a log file is rolled and `roll_count` the
/// number of rolled files that are kept; 0 stands for "not set" in both.
#[derive(Debug, PartialEq, Eq)]
pub struct LogConfig {
    pub path: Option<String>,
    pub directory: Option<String>,
    pub level: String,
    pub size: u64,
    pub out_kind: Vec<OutKind>,
    pub roll_count: u32,
    pub time_format: Option<String>,
    pub filter_target: Vec<FilterTarget>,
}

impl View for FilterTarget {
    type V = FilterTargetView;

    closed spec fn view(&self) -> FilterTargetView {
        FilterTargetView { name: self.name@, level: self.level@ }
    }
}

impl View for LogConfig {
    type V = LogConfigView;

    open spec fn view(&self) -> LogConfigView {
        LogConfigView {
            path: opt_text(self.path),
            directory: opt_text(self.directory),
            level: self.level@,
            size: self.size,
            out_kind: self.out_kind@,
            roll_count: self.roll_count,
            time_format: opt_text(self.time_format),
            filter_target: target_views(self.filter_target@),
        }
    }
}

/// The views of a list of targets.
pub open spec fn target_views(targets: Seq<FilterTarget>) -> Seq<FilterTargetView> {
    Seq::new(targets.len(), |i: int| targets[i]@)
}

/// The targets with their levels as text, in lower case.
pub open spec fn as_text(targets: Seq<TargetLevelView>) -> Seq<FilterTargetView> {
    Seq::new(
        targets.len(),
        |i: int| FilterTargetView { name: targets[i].name, level: targets[i].level.text() },
    )
}

/// The targets of a directive, with their levels in lower case; none where
/// the text is no directive.
pub open spec fn targets_of(text: Seq<char>) -> Seq<FilterTargetView> {
    match directive(text) {
        Ok(read) => as_text(read.targets),
        Err(_) => Seq::empty(),
    }
}

/// The first of the pieces that holds no `=`; `debug` where every piece holds
/// one.
pub open spec fn bare_level_in(pieces: Seq<Seq<char>>) -> Seq<char>
    decreases pieces.len(),
{
    if pieces.len() == 0 {
        DEBUG@
    } else if !pieces.first().contains('=') {
        pieces.first()
    } else {
        bare_level_in(pieces.drop_first())
    }
}

/// The bare level of a text: the first of its comma-separated pieces that
/// holds no `=`, as it stands, or `debug` where every piece holds one.
pub open spec fn bare_level_of(text: Seq<char>) -> Seq<char> {
    bare_level_in(split(text, ','))
}

/// The level with which a directive starts, as it is written: the letters at
/// the start of the text.
pub open spec fn level_as_written(text: Seq<char>) -> Seq<char> {
    text.subrange(0, run_end(text, 0, CharClass::Alpha))
}

/// The level that a text sets: the level of a directive as it is written, and
/// the bare level of a text that is no directive.
pub open spec fn level_set_by(text: Seq<char>) -> Seq<char> {
    if directive(text) is Ok {
        level_as_written(text)
    } else {
        bare_level_of(text)
    }
}

impl Clone for FilterTarget {
    fn clone(&self) -> (r: Self)
        ensures
            r@ == self@,
    {
        FilterTarget { name: self.name.clone(), level: self.level.clone() }
    }
}

impl FilterTarget {
    /// The target `name` with the level `level`.
    pub fn new(name: &str, level: &str) -> (r: FilterTarget)
        ensures
            r@ == (FilterTargetView { name: name@, level: level@ }),
    {
        FilterTarget { name: name.to_owned(), level: level.to_owned() }
    }

    /// The name of the target.
    pub fn name(&self) -> (r: &String)
        ensures
            r@ == self@.name,
    {
        &self.name
    }

    /// The level of the target, as text.
    pub fn level(&self) -> (r: &String)
        ensures
            r@ == self@.level,
    {
        &self.level
    }

    /// The targets of a directive, in its order, with their levels in lower
    /// case. A text that is no directive has none.
    pub fn targets(level: &str) -> (r: Vec<FilterTarget>)
        ensures
            target_views(r@) == targets_of(level@),
    {
        match parse_directive(level) {
            Ok((_, read)) => text_targets(&read),
            Err(_) => {
                let none: Vec<FilterTarget> = Vec::new();
                assert(target_views(none@) =~= Seq::empty());
                none
            },
        }
    }
}

impl Default for FilterTarget {
    fn default() -> (r: Self)
        ensures
            r@ == (FilterTargetView { name: Seq::empty(), level: Seq::empty() }),
    {
        FilterTarget { name: String::new(), level: String::new() }
    }
}

/// The targets with their levels as text.
fn text_targets(read: &Vec<TargetLevel>) -> (r: Vec<FilterTarget>)
    ensures
        target_views(r@) == as_text(target_level_views(read@)),
{
    let mut targets: Vec<FilterTarget> = Vec::new();
    let mut i: usize = 0;
    while i < read.len()
        invariant
            i <= read.len(),
            targets.len() == i,
            forall|k: int|
                0 <= k < i ==> (#[trigger] targets[k])@ == (FilterTargetView {
                    name: read[k]@.name,
                    level: read[k]@.level.text(),
                }),
        decreases read.len() - i,
    {
        targets.push(FilterTarget::new(read[i].name().as_str(), read[i].level().to_text()));
        i = i + 1;
    }
    assert(target_views(targets@) =~= as_text(target_level_views(read@)));
    targets
}

/// The bare level of any text: its first comma-separated piece without a `=`,
/// as it stands, or `debug` where there is none.
pub fn get_root_level(level: &str) -> (r: String)
    ensures
        r@ == bare_level_of(level@),
{
    let pieces = split_text(level, ',');
    let mut i: usize = 0;
    assert(texts(pieces@).skip(0) =~= texts(pieces@));
    while i < pieces.len()
        invariant
            i <= pieces.len(),
            texts(pieces@) == split(level@, ','),
            bare_level_of(level@) == bare_level_in(texts(pieces@).skip(i as int)),
        decreases pieces.len() - i,
    {
        let fields = split_text(pieces[i].as_str(), '=');
        proof {
            let unread = texts(pieces@).skip(i as int);
            lemma_split_single(pieces[i as int]@, '=');
            assert(unread.first() == pieces[i as int]@);
            assert(unread.drop_first() =~= texts(pieces@).skip(i as int + 1));
        }
        if fields.len() == 1 {
            return pieces[i].clone();
        }
        i = i + 1;
    }
    DEBUG.to_owned()
}

/// The level with which a directive starts, as it is written.
fn written_level(text: &str) -> (r: String)
    ensures
        r@ == level_as_written(text@),
{
    let chars = chars_of(text);
    let end = scan(&chars, 0, CharClass::Alpha);
    text.substring_char(0, end).to_owned()
}

/// The name of the log file where none was given: the program's base name, or
/// `simple_log` where that is not known, with `.log` behind it.
pub open spec fn basename_of(program: Option<Seq<char>>) -> Seq<char> {
    match program {
        Some(name) => name + ".log"@,
        None => SIMPLE_LOG_BASE_NAME@ + ".log"@,
    }
}

/// The name of the log file where none was given.
pub fn default_basename(program: Option<&str>) -> (r: String)
    ensures
        r@ == basename_of(opt_str(program)),
{
    let mut name = match program {
        Some(name) => name.to_owned(),
        None => SIMPLE_LOG_BASE_NAME.to_owned(),
    };
    name.append(".log");
    name
}

/// A copy of a list of sink kinds.
fn copy_kinds(kinds: &Vec<OutKind>) -> (r: Vec<OutKind>)
    ensures
        r@ == kinds@,
{
    let mut copy: Vec<OutKind> = Vec::new();
    let mut i: usize = 0;
    while i < kinds.len()
        invariant
            i <= kinds.len(),
            copy@ == kinds@.take(i as int),
        decreases kinds.len() - i,
    {
        copy.push(kinds[i]);
        assert(copy@ =~= kinds@.take(i as int + 1));
        i = i + 1;
    }
    assert(kinds@.take(i as int) =~= kinds@);
    copy
}

/// A copy of a list of targets.
fn copy_targets(targets: &Vec<FilterTarget>) -> (r: Vec<FilterTarget>)
    ensures
        target_views(r@) == target_views(targets@),
{
    let mut copy: Vec<FilterTarget> = Vec::new();
    let mut i: usize = 0;
    while i < targets.len()
        invariant
            i <= targets.len(),
            target_views(copy@) == target_views(targets@).take(i as int),
        decreases targets.len() - i,
    {
        let ghost before = target_views(copy@);
        let target = targets[i].clone();
        copy.push(target);
        assert(target_views(copy@) =~= before.push(target@));
        assert(target_views(copy@) =~= target_views(targets@).take(i as int + 1));
        i = i + 1;
    }
    assert(target_views(targets@).take(i as int) =~= target_views(targets@));
    copy
}

impl Clone for LogConfig {
    fn clone(&self) -> (r: Self)
        ensures
            r@ == self@,
    {
        LogConfig {
            path: copy_opt(&self.path),
            directory: copy_opt(&self.directory),
            level: self.level.clone(),
            size: self.size,
            out_kind: copy_kinds(&self.out_kind),
            roll_count: self.roll_count,
            time_format: copy_opt(&self.time_format),
            filter_target: copy_targets(&self.filter_target),
        }
    }
}

impl LogConfigView {
    /// The configuration in which nothing is set.
    pub open spec fn empty() -> LogConfigView {
        LogConfigView {
            path: None,
            directory: None,
            level: Seq::empty(),
            size: 0,
            out_kind: Seq::empty(),
            roll_count: 0,
            time_format: None,
            filter_target: Seq::empty(),
        }
    }

    /// This configuration with the level and the targets of the directive
    /// `text`, and with no target left of those it had.
    pub open spec fn with_level(self, text: Seq<char>) -> LogConfigView {
        LogConfigView { level: level_set_by(text), filter_target: targets_of(text), ..self }
    }

    /// Nothing is left unset: the sizes are not 0, there is a level and at
    /// least one sink.
    pub open spec fn is_complete(self) -> bool {
        &&& self.size != 0
        &&& self.roll_count != 0
        &&& self.level.len() > 0
        &&& self.out_kind.len() > 0
    }

    /// This configuration with every unset field at its default: the sinks
    /// console and file; 10 MB; 10 rolled files; the level `debug`; and,
    /// where the path is blank, a file sink is among the sinks, defaulted or
    /// not, and no directory is set, the file `./tmp/` with the default base
    /// name.
    pub open spec fn defaulted(self, program: Option<Seq<char>>) -> LogConfigView {
        let out_kind = if self.out_kind.len() == 0 {
            seq![OutKind::Console, OutKind::File]
        } else {
            self.out_kind
        };
        LogConfigView {
            path: if self.path is Some && is_blank(self.path->0) && out_kind.contains(
                OutKind::File,
            ) && self.directory is None {
                Some("./tmp/"@ + basename_of(program))
            } else {
                self.path
            },
            directory: self.directory,
            level: if self.level.len() == 0 {
                DEBUG@
            } else {
                self.level
            },
            size: if self.size == 0 {
                10
            } else {
                self.size
            },
            out_kind,
            roll_count: if self.roll_count == 0 {
                10
            } else {
                self.roll_count
            },
            time_format: self.time_format,
            filter_target: self.filter_target,
        }
    }
}

impl Default for LogConfig {
    fn default() -> (r: Self)
        ensures
            r@ == LogConfigView::empty(),
    {
        let config = LogConfig {
            path: None,
            directory: None,
            level: String::new(),
            size: 0,
            out_kind: Vec::new(),
            roll_count: 0,
            time_format: None,
            filter_target: Vec::new(),
        };
        assert(config@.filter_target =~= Seq::empty());
        config
    }
}

impl LogConfig {
    /// The file that the file sink writes to, where one is set.
    pub fn get_path(&self) -> (r: Option<&String>)
        ensures
            r is Some <==> self@.path is Some,
            r matches Some(path) ==> self@.path == Some(path@),
    {
        self.path.as_ref()
    }

    /// The directory under which the log file lies, where one is set.
    pub fn get_directory(&self) -> (r: Option<&String>)
        ensures
            r is Some <==> self@.directory is Some,
            r matches Some(directory) ==> self@.directory == Some(directory@),
    {
        self.directory.as_ref()
    }

    /// The global level, as text.
    pub fn get_level(&self) -> (r: &String)
        ensures
            r@ == self@.level,
    {
        &self.level
    }

    /// The size in MB at which the log file is rolled; 0 where none is set.
    pub fn get_size(&self) -> (r: u64)
        ensures
            r == self@.size,
    {
        self.size
    }

    /// The sinks, in the order in which they were asked for.
    pub fn get_out_kind(&self) -> (r: &Vec<OutKind>)
        ensures
            r@ == self@.out_kind,
    {
        &self.out_kind
    }

    /// The number of rolled files that are kept; 0 where none is set.
    pub fn get_roll_count(&self) -> (r: u32)
        ensures
            r == self@.roll_count,
    {
        self.roll_count
    }

    /// The pattern in which the time of a record is written, where one is
    /// set.
    pub fn get_time_format(&self) -> (r: Option<&String>)
        ensures
            r is Some <==> self@.time_format is Some,
            r matches Some(format) ==> self@.time_format == Some(format@),
    {
        self.time_format.as_ref()
    }

    /// The targets whose level differs from the global one.
    pub fn get_filter_target(&self) -> (r: &Vec<FilterTarget>)
        ensures
            target_views(r@) == self@.filter_target,
    {
        &self.filter_target
    }

    /// Sets the level from a directive: the level becomes its global level,
    /// as it is written, and the targets are replaced by those that it names.
    /// A text that is no directive leaves no target, and the level becomes
    /// its bare level.
    pub fn set_level(&mut self, level: &str)
        ensures
            final(self)@ == old(self)@.with_level(level@),
    {
        match parse_directive(level) {
            Ok((_, targets)) => {
                self.level = written_level(level);
                self.filter_target = text_targets(&targets);
            },
            Err(_) => {
                self.level = get_root_level(level);
                self.filter_target = Vec::new();
                assert(target_views(self.filter_target@) =~= Seq::empty());
            },
        }
    }

    /// Sets the level from a directive, as [`LogConfig::set_level`] does. A
    /// text that is no directive changes nothing and is an error, with the
    /// message of the fault.
    pub fn try_set_level(&mut self, level: &str) -> (r: Result<(), String>)
        ensures
            match r {
                Ok(_) => directive(level@) is Ok && final(self)@ == old(self)@.with_level(level@),
                Err(message) => directive(level@) is Err && final(self)@ == old(self)@
                    && message@ == failure_message(level@, directive(level@)->Err_0),
            },
    {
        match parse_level(level) {
            Ok((_, targets)) => {
                self.level = written_level(level);
                self.filter_target = text_targets(&targets);
                Ok(())
            },
            Err(message) => Err(message),
        }
    }
}

/// Whether a file sink is among `kinds`.
fn wants_file(kinds: &Vec<OutKind>) -> (r: bool)
    ensures
        r == kinds@.contains(OutKind::File),
{
    let mut i: usize = 0;
    while i < kinds.len()
        invariant
            i <= kinds.len(),
            forall|k: int| 0 <= k < i ==> kinds@[k] != OutKind::File,
        decreases kinds.len() - i,
    {
        if kinds[i] == OutKind::File {
            return true;
        }
        i = i + 1;
    }
    false
}

/// Fills in what the configuration leaves unset, and touches nothing that is
/// set. `program` is the base name of the running program, where it is known.
pub fn init_default_log(log: &mut LogConfig, program: Option<&str>)
    ensures
        final(log)@ == old(log)@.defaulted(opt_str(program)),
{
    if log.out_kind.len() == 0 {
        log.out_kind.push(OutKind::Console);
        log.out_kind.push(OutKind::File);
        assert(log.out_kind@ =~= seq![OutKind::Console, OutKind::File]);
    }
    let is_blank_path = match &log.path {
        Some(path) => blank(path.as_str()),
        None => false,
    };
    if is_blank_path && wants_file(&log.out_kind) && log.directory.is_none() {
        let mut path = "./tmp/".to_owned();
        path.append(default_basename(program).as_str());
        log.path = Some(path);
    }
    if log.size == 0 {
        log.size = 10;
    }
    if log.roll_count == 0 {
        log.roll_count = 10;
    }
    if log.level.as_str().is_empty() {
        log.level = DEBUG.to_owned();
    }
}

/// Builds a [`LogConfig`] step by step, from the configuration in which
/// nothing is set.
pub struct LogConfigBuilder(LogConfig);

impl View for LogConfigBuilder {
    type V = LogConfigView;

    closed spec fn view(&self) -> LogConfigView {
        self.0@
    }
}

impl LogConfigBuilder {
    /// Starts from the configuration in which nothing is set.
    pub fn builder() -> (r: Self)
        ensures
            r@ == LogConfigView::empty(),
    {
        LogConfigBuilder(LogConfig::default())
    }

    /// The file that the file sink writes to.
    pub fn path(self, path: &str) -> (r: LogConfigBuilder)
        ensures
            r@ == (LogConfigView { path: Some(path@), ..self@ }),
    {
        let mut builder = self;
        builder.0.path = Some(path.to_owned());
        builder
    }

    /// The directory under which the log file lies.
    pub fn directory(self, directory: &str) -> (r: LogConfigBuilder)
        ensures
            r@ == (LogConfigView { directory: Some(directory@), ..self@ }),
    {
        let mut builder = self;
        builder.0.directory = Some(directory.to_owned());
        builder
    }

    /// The level, as a directive; the targets are those that it names. See
    /// [`LogConfig::set_level`].
    pub fn level(self, level: &str) -> (r: LogConfigBuilder)
        ensures
            r@ == self@.with_level(level@),
    {
        let mut builder = self;
        builder.0.set_level(level);
        builder
    }

    /// The size in MB at which the log file is rolled.
    pub fn size(self, size: u64) -> (r: LogConfigBuilder)
        ensures
            r@ == (LogConfigView { size, ..self@ }),
    {
        let mut builder = self;
        builder.0.size = size;
        builder
    }

    /// Adds a file sink.
    pub fn output_file(self) -> (r: LogConfigBuilder)
        ensures
            r@ == (LogConfigView { out_kind: self@.out_kind.push(OutKind::File), ..self@ }),
    {
        let mut builder = self;
        builder.0.out_kind.push(OutKind::File);
        builder
    }

    /// Adds a console sink.
    pub fn output_console(self) -> (r: LogConfigBuilder)
        ensures
            r@ == (LogConfigView { out_kind: self@.out_kind.push(OutKind::Console), ..self@ }),
    {
        let mut builder = self;
        builder.0.out_kind.push(OutKind::Console);
        builder
    }

    /// The number of rolled files that are kept.
    pub fn roll_count(self, roll_count: u32) -> (r: LogConfigBuilder)
        ensures
            r@ == (LogConfigView { roll_count, ..self@ }),
    {
        let mut builder = self;
        builder.0.roll_count = roll_count;
        builder
    }

    /// The pattern in which the time of a record is written.
    pub fn time_format(self, time_format: &str) -> (r: LogConfigBuilder)
        ensures
            r@ == (LogConfigView { time_format: Some(time_format@), ..self@ }),
    {
        let mut builder = self;
        builder.0.time_format = Some(time_format.to_owned());
        builder
    }

    /// The configuration as it was built; no default is filled in.
    pub fn build(self) -> (r: LogConfig)
        ensures
            r@ == self@,
    {
        self.0
    }
}

/// The bare level of a text holds neither a comma nor a `=`.
pub proof fn lemma_bare_level_has_no_separator(text: Seq<char>)
    ensures
        !bare_level_of(text).contains(','),
        !bare_level_of(text).contains('='),
{
    lemma_pieces_hold_no_separator(text, 0, ',');
    lemma_bare_level_in(split(text, ','));
}

/// [`lemma_bare_level_has_no_separator`], for pieces that hold no comma.
proof fn lemma_bare_level_in(pieces: Seq<Seq<char>>)
    requires
        forall|i: int| 0 <= i < pieces.len() ==> !(#[trigger] pieces[i]).contains(','),
    ensures
        !bare_level_in(pieces).contains(','),
        !bare_level_in(pieces).contains('='),
    decreases pieces.len(),
{
    if pieces.len() == 0 {
        reveal_strlit("debug");
        let debug = DEBUG@;
        if debug.contains(',') {
            let k = choose|k: int| 0 <= k < debug.len() && debug[k] == ',';
            assert(debug[k] != ',');
        }
        if debug.contains('=') {
            let k = choose|k: int| 0 <= k < debug.len() && debug[k] == '=';
            assert(debug[k] != '=');
        }
    } else if !pieces.first().contains('=') {
        assert(pieces.first() == pieces[0]);
    } else {
        let rest = pieces.drop_first();
        assert forall|i: int| 0 <= i < rest.len() implies !(#[trigger] rest[i]).contains(',') by {
            assert(rest[i] == pieces[i + 1]);
        }
        lemma_bare_level_in(rest);
    }
}

/// The bare level of a directive is its level as it is written, with the white
/// space that stands between the level and the first comma. The level as it
/// is written names the level that the directive is read with.
pub proof fn lemma_bare_level_of_directive(text: Seq<char>)
    requires
        directive(text) is Ok,
    ensures
        bare_level_of(text) == text.subrange(
            0,
            run_end(text, run_end(text, 0, CharClass::Alpha), CharClass::Space),
        ),
        run_end(text, run_end(text, 0, CharClass::Alpha), CharClass::Space) == run_end(
            text,
            0,
            CharClass::Alpha,
        ) ==> bare_level_of(text) == level_as_written(text),
        level_filter_named(level_as_written(text)) == Some(directive(text)->Ok_0.level),
        level_set_by(text) == level_as_written(text),
{
    let level_end = run_end(text, 0, CharClass::Alpha);
    lemma_run_end(text, 0, CharClass::Alpha);
    let comma = run_end(text, level_end, CharClass::Space);
    lemma_run_end(text, level_end, CharClass::Space);
    let piece = text.subrange(0, comma);
    assert forall|k: int| 0 <= k < comma implies CharClass::Except(',').holds(
        #[trigger] text[k],
    ) by {
        if k < level_end {
            assert(CharClass::Alpha.holds(text[k]));
        } else {
            assert(CharClass::Space.holds(text[k]));
        }
    }
    lemma_run_end_is(text, 0, CharClass::Except(','), comma);
    assert(split(text, ',').first() == piece) by {
        assert(split_from(text, 0, ',')[0] == piece);
    }
    assert(!piece.contains('=')) by {
        if piece.contains('=') {
            let k = choose|k: int| 0 <= k < piece.len() && piece[k] == '=';
            assert(piece[k] == text[k]);
            if k < level_end {
                assert(CharClass::Alpha.holds(text[k]));
            } else {
                assert(CharClass::Space.holds(text[k]));
            }
        }
    }
}

/// Defaulting leaves a configuration in which nothing is unset, and keeps
/// every field that was set.
pub proof fn lemma_defaulted_is_complete(config: LogConfigView, program: Option<Seq<char>>)
    ensures
        config.defaulted(program).is_complete(),
        config.size != 0 ==> config.defaulted(program).size == config.size,
        config.roll_count != 0 ==> config.defaulted(program).roll_count == config.roll_count,
        config.level.len() > 0 ==> config.defaulted(program).level == config.level,
        config.out_kind.len() > 0 ==> config.defaulted(program).out_kind == config.out_kind,
        config.path is Some && !is_blank(config.path->0) ==> config.defaulted(program).path
            == config.path,
        config.path is None ==> config.defaulted(program).path is None,
        config.defaulted(program).directory == config.directory,
        config.defaulted(program).time_format == config.time_format,
        config.defaulted(program).filter_target == config.filter_target,
{
    reveal_strlit("debug");
}

/// Defaulting twice gives what defaulting once gives.
pub proof fn lemma_defaulting_is_idempotent(config: LogConfigView, program: Option<Seq<char>>)
    ensures
        config.defaulted(program).defaulted(program) == config.defaulted(program),
{
    reveal_strlit("debug");
    let once = config.defaulted(program);
    assert(once.out_kind.len() > 0);
    assert(once.level.len() > 0);
}

} // verus!
