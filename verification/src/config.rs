use crate::number::FromText;
use crate::number::{nat_digits, push_nat_digits};
use crate::text::{
    append_chars, chars_of, find_char, find_from, lines_from, opt_str_text, same_text, slice_of, string_of,
    trim, trimmed,
};
use vstd::prelude::*;

verus! {

/// One setting of a module: a key and its value.
pub struct ConfigKeyValue {
    pub key: String,
    pub value: String,
}

/// One section of the configuration: a module's name and its settings, in file order.
pub struct ConfigModule {
    pub name: String,
    pub settings: Vec<ConfigKeyValue>,
}

/// The place of the first module at or after `from` that is called `name`.
pub open spec fn module_at(cfg: Seq<ConfigModule>, name: Seq<char>, from: int) -> Option<int>
    decreases cfg.len() - from,
{
    if from < 0 || from >= cfg.len() {
        None
    } else if cfg[from].name@ == name {
        Some(from)
    } else {
        module_at(cfg, name, from + 1)
    }
}

/// The place of the first setting at or after `from` whose key is `key`.
pub open spec fn setting_at(module: Seq<ConfigKeyValue>, key: Seq<char>, from: int) -> Option<int>
    decreases module.len() - from,
{
    if from < 0 || from >= module.len() {
        None
    } else if module[from].key@ == key {
        Some(from)
    } else {
        setting_at(module, key, from + 1)
    }
}

/// The value of the first setting of `module` whose key is `key`.
pub open spec fn key_value(module: Seq<ConfigKeyValue>, key: Seq<char>) -> Option<Seq<char>> {
    match setting_at(module, key, 0) {
        Some(i) => Some(module[i].value@),
        None => None,
    }
}

/// The settings of the first module of `cfg` that is called `name`.
pub fn get_module<'a>(cfg: &'a Vec<ConfigModule>, name: &str) -> (r: Option<
    &'a Vec<ConfigKeyValue>,
>)
    ensures
        match module_at(cfg@, name@, 0) {
            Some(i) => 0 <= i < cfg.len() && r == Some(&cfg@[i].settings),
            None => r is None,
        },
{
    let mut i: usize = 0;
    while i < cfg.len()
        invariant
            i <= cfg.len(),
            module_at(cfg@, name@, 0) == module_at(cfg@, name@, i as int),
        decreases cfg.len() - i,
    {
        if same_text(cfg[i].name.as_str(), name) {
            return Some(&cfg[i].settings);
        }
        i += 1;
    }
    None
}

/// The value of the first setting of `module` whose key is `key`.
pub fn get_key_value<'a>(module: &'a Vec<ConfigKeyValue>, key: &str) -> (r: Option<&'a str>)
    ensures
        opt_str_text(r) == key_value(module@, key@),
{
    let mut i: usize = 0;
    while i < module.len()
        invariant
            i <= module.len(),
            setting_at(module@, key@, 0) == setting_at(module@, key@, i as int),
        decreases module.len() - i,
    {
        if same_text(module[i].key.as_str(), key) {
            return Some(module[i].value.as_str());
        }
        i += 1;
    }
    None
}

/// The value of the setting `key` of `module`, or `default` where it has none.
pub fn get_key_value_default<'a>(module: &'a Vec<ConfigKeyValue>, key: &str, default: &'a str) -> (r:
    &'a str)
    ensures
        r@ == match key_value(module@, key@) {
            Some(v) => v,
            None => default@,
        },
{
    match get_key_value(module, key) {
        Some(v) => v,
        None => default,
    }
}

/// Whether the setting `key` of `module`, where it has one, reads as a `T`.
pub open spec fn reads_as<T: FromText>(module: Seq<ConfigKeyValue>, key: Seq<char>) -> bool {
    match key_value(module, key) {
        Some(v) => T::parsed(v) is Some,
        None => true,
    }
}

/// The setting `key` of `module` as a `T`: nothing where `module` has no such setting, and
/// nothing inside where it has one that does not read as a `T`.
pub open spec fn key_value_as<T: FromText>(module: Seq<ConfigKeyValue>, key: Seq<char>) -> Option<
    Option<T>,
> {
    match key_value(module, key) {
        Some(v) => Some(T::parsed(v)),
        None => None,
    }
}

/// The setting `key` of `module`, read as a `T`: nothing where `module` has no such setting, and
/// nothing inside where it has one that does not read as a `T`.
pub fn try_get_key_value_as<T: FromText>(module: &Vec<ConfigKeyValue>, key: &str) -> (r: Option<
    Option<T>,
>)
    ensures
        r == key_value_as::<T>(module@, key@),
{
    match get_key_value(module, key) {
        Some(v) => Some(T::parse(v)),
        None => None,
    }
}

/// The setting `key` of `module`, read as a `T`; nothing where `module` has no such setting.
pub fn get_key_value_as<T: FromText>(module: &Vec<ConfigKeyValue>, key: &str) -> (r: Option<T>)
    requires
        reads_as::<T>(module@, key@),
    ensures
        r == match key_value(module@, key@) {
            Some(v) => T::parsed(v),
            None => None,
        },
{
    match get_key_value(module, key) {
        Some(v) => T::parse(v),
        None => None,
    }
}

/// The setting `key` of `module`, read as a `T`, or `default` where `module` has no such
/// setting.
pub fn get_key_value_default_as<T: FromText>(
    module: &Vec<ConfigKeyValue>,
    key: &str,
    default: T,
) -> (r: T)
    requires
        reads_as::<T>(module@, key@),
    ensures
        r == match key_value(module@, key@) {
            Some(v) => T::parsed(v).unwrap(),
            None => default,
        },
{
    match get_key_value_as(module, key) {
        Some(v) => v,
        None => default,
    }
}

/// A section of the configuration as a plain value: its name, and its settings as pairs of
/// key and value.
pub struct Section {
    pub name: Seq<char>,
    pub settings: Seq<(Seq<char>, Seq<char>)>,
}

/// The settings `settings` as pairs of key and value.
pub open spec fn pairs_of(settings: Seq<ConfigKeyValue>) -> Seq<(Seq<char>, Seq<char>)> {
    Seq::new(settings.len(), |i: int| (settings[i].key@, settings[i].value@))
}

impl View for ConfigModule {
    type V = Section;

    open spec fn view(&self) -> Section {
        Section { name: self.name@, settings: pairs_of(self.settings@) }
    }
}

/// The configuration `cfg` as plain values.
pub open spec fn sections_of(cfg: Seq<ConfigModule>) -> Seq<Section> {
    Seq::new(cfg.len(), |i: int| cfg[i]@)
}

/// What one line of the configuration says.
pub enum Line {
    /// Nothing: the line is empty, a comment, or a key without a value.
    Blank,
    /// A section with this name starts.
    Header(Seq<char>),
    /// The current section has this setting.
    Pair(Seq<char>, Seq<char>),
    /// The line is neither of these.
    Unreadable,
}

/// `value` without the double quotes around it, where it stands in double quotes.
pub open spec fn unquoted(value: Seq<char>) -> Seq<char> {
    if value.len() >= 2 && value[0] == '"' && value.last() == '"' {
        value.subrange(1, value.len() - 1)
    } else {
        value
    }
}

/// What the line `line` says. A line that starts with `#` is a comment. A line in square
/// brackets is the header of a section. Any other line holds a key, `=` and a value; white
/// space around either does not count, nor do double quotes around the value.
pub open spec fn line_of(line: Seq<char>) -> Line {
    let eq = find_from(line, 0, '=');
    if line.len() == 0 || line[0] == '#' {
        Line::Blank
    } else if line[0] == '[' && line.last() == ']' {
        Line::Header(line.subrange(1, line.len() - 1))
    } else if eq >= line.len() {
        Line::Unreadable
    } else if trimmed(line.skip(eq + 1)).len() == 0 {
        Line::Blank
    } else {
        Line::Pair(trimmed(line.take(eq)), unquoted(trimmed(line.skip(eq + 1))))
    }
}

/// The message for the line `number` that is neither header nor setting.
pub open spec fn no_pair(number: nat) -> Seq<char> {
    "Syntax error at line "@ + nat_digits(number) + ": expected key/value pair"@
}

/// The message for the line `number` that holds a setting before any section started.
pub open spec fn no_section(number: nat) -> Seq<char> {
    "Syntax error at line "@ + nat_digits(number) + ": key/value pair found before any module tag"@
}

/// The message for a configuration without the section `general`.
pub open spec fn no_general() -> Seq<char> {
    "The config file is missing the [general] module."@
}

/// The settings with which a section called `name` starts: none, but for `general`, which
/// has in `configmtime` what identifies the configuration, where that is known.
pub open spec fn first_settings(name: Seq<char>, mtime: Option<Seq<char>>) -> Seq<
    (Seq<char>, Seq<char>),
> {
    match mtime {
        Some(token) => if name == "general"@ {
            seq![("configmtime"@, token)]
        } else {
            Seq::empty()
        },
        None => Seq::empty(),
    }
}

/// The sections that the first `k` of the lines `lines` make, or the message of the first line
/// among them that is in error.
pub open spec fn sections_upto(lines: Seq<Seq<char>>, mtime: Option<Seq<char>>, k: int) -> Result<
    Seq<Section>,
    Seq<char>,
>
    decreases k,
{
    if k <= 0 {
        Ok(Seq::empty())
    } else {
        match sections_upto(lines, mtime, k - 1) {
            Err(e) => Err(e),
            Ok(sections) => match line_of(lines[k - 1]) {
                Line::Blank => Ok(sections),
                Line::Header(name) => Ok(
                    sections.push(Section { name, settings: first_settings(name, mtime) }),
                ),
                Line::Pair(key, value) => if sections.len() == 0 {
                    Err(no_section(k as nat))
                } else {
                    Ok(
                        sections.update(
                            sections.len() - 1,
                            Section {
                                name: sections.last().name,
                                settings: sections.last().settings.push((key, value)),
                            },
                        ),
                    )
                },
                Line::Unreadable => Err(no_pair(k as nat)),
            },
        }
    }
}

/// Whether one of `sections` is called `general`.
pub open spec fn has_general(sections: Seq<Section>) -> bool {
    exists|i: int| 0 <= i < sections.len() && (#[trigger] sections[i]).name == "general"@
}

/// The configuration that the text `contents` holds, where `mtime` is what identifies it: the
/// sections that its lines make, which must include `general`.
pub open spec fn parsed_config(contents: Seq<char>, mtime: Option<Seq<char>>) -> Result<
    Seq<Section>,
    Seq<char>,
> {
    let lines = lines_from(contents, 0);
    match sections_upto(lines, mtime, lines.len() as int) {
        Err(e) => Err(e),
        Ok(sections) => if has_general(sections) {
            Ok(sections)
        } else {
            Err(no_general())
        },
    }
}

/// What `load_config` returns, as a plain value.
pub open spec fn loaded_view(r: Result<Vec<ConfigModule>, String>) -> Result<Seq<Section>, Seq<char>> {
    match r {
        Ok(cfg) => Ok(sections_of(cfg@)),
        Err(e) => Err(e@),
    }
}

/// What one line of the configuration says, as it is read.
#[derive(Debug, PartialEq, Eq)]
pub enum ConfigLine {
    /// Nothing: the line is empty, a comment, or a key without a value.
    Blank,
    /// A section with this name starts.
    Header(String),
    /// The current section has this setting.
    Pair(String, String),
    /// The line is neither of these.
    Unreadable,
}

impl View for ConfigLine {
    type V = Line;

    open spec fn view(&self) -> Line {
        match *self {
            ConfigLine::Blank => Line::Blank,
            ConfigLine::Header(name) => Line::Header(name@),
            ConfigLine::Pair(key, value) => Line::Pair(key@, value@),
            ConfigLine::Unreadable => Line::Unreadable,
        }
    }
}

/// Reads one line of the configuration.
pub fn read_config_line(line: &Vec<char>) -> (r: ConfigLine)
    ensures
        r@ == line_of(line@),
{
    if line.len() == 0 || line[0] == '#' {
        return ConfigLine::Blank;
    }
    if line[0] == '[' && line[line.len() - 1] == ']' {
        let name = slice_of(line, 1, line.len() - 1);
        return ConfigLine::Header(string_of(&name));
    }
    let eq = find_char(line, 0, '=');
    if eq >= line.len() {
        return ConfigLine::Unreadable;
    }
    assert(line@.take(eq as int) == line@.subrange(0, eq as int));
    assert(line@.skip(eq + 1) == line@.subrange(eq + 1, line.len() as int));
    let value = trim(&slice_of(line, eq + 1, line.len()));
    if value.len() == 0 {
        return ConfigLine::Blank;
    }
    let value = if value.len() >= 2 && value[0] == '"' && value[value.len() - 1] == '"' {
        slice_of(&value, 1, value.len() - 1)
    } else {
        value
    };
    let key = trim(&slice_of(line, 0, eq));
    ConfigLine::Pair(string_of(&key), string_of(&value))
}

/// The message for a line in error: `before`, the line's number, `after`.
fn line_message(before: &str, number: usize, after: &str) -> (r: String)
    ensures
        r@ == before@ + nat_digits(number as nat) + after@,
{
    let mut out = chars_of(before);
    push_nat_digits(&mut out, number as u128);
    let after = chars_of(after);
    append_chars(&mut out, &after);
    string_of(&out)
}

/// Puts the setting `key` with the value `value` at the end of `settings`.
fn add_setting(settings: &mut Vec<ConfigKeyValue>, key: String, value: String)
    ensures
        pairs_of(final(settings)@) == pairs_of(old(settings)@).push((key@, value@)),
{
    let ghost before = settings@;
    let ghost pair = (key@, value@);
    settings.push(ConfigKeyValue { key, value });
    assert(settings@[before.len() as int].key@ == pair.0);
    assert forall|j: int| 0 <= j < before.len() implies settings@[j].key@ == before[j].key@
        && settings@[j].value@ == before[j].value@ by {}
    assert(pairs_of(settings@) =~= pairs_of(before).push(pair));
}

/// Puts the section `name` with the settings `settings` at the end of `cfg`.
fn add_section(cfg: &mut Vec<ConfigModule>, name: String, settings: Vec<ConfigKeyValue>)
    ensures
        sections_of(final(cfg)@) == sections_of(old(cfg)@).push(
            Section { name: name@, settings: pairs_of(settings@) },
        ),
{
    let ghost before = cfg@;
    let ghost section = Section { name: name@, settings: pairs_of(settings@) };
    cfg.push(ConfigModule { name, settings });
    assert(cfg@[before.len() as int]@ == section);
    assert forall|j: int| 0 <= j < before.len() implies cfg@[j]@ == before[j]@ by {}
    assert(sections_of(cfg@) =~= sections_of(before).push(section));
}

/// The sections read so far: those that are closed, and the one that is open, where one is.
pub open spec fn with_open(
    closed: Seq<Section>,
    open: Option<String>,
    settings: Seq<ConfigKeyValue>,
) -> Seq<Section> {
    match open {
        Some(name) => closed.push(Section { name: name@, settings: pairs_of(settings) }),
        None => closed,
    }
}

/// Reads the configuration that the text `contents` holds, where `mtime` is what identifies
/// it, if that is known.
pub fn load_config(contents: &str, mtime: Option<&str>) -> (r: Result<Vec<ConfigModule>, String>)
    ensures
        loaded_view(r) == parsed_config(contents@, opt_str_text(mtime)),
{
    let text = chars_of(contents);
    let ghost token = opt_str_text(mtime);
    let ghost lines = lines_from(text@, 0);
    let mut output: Vec<ConfigModule> = Vec::new();
    let mut name: Option<String> = None;
    let mut settings: Vec<ConfigKeyValue> = Vec::new();
    let mut found_general = false;
    let mut pos: usize = 0;
    let mut k: usize = 0;
    let ghost mut done: Seq<Seq<char>> = Seq::empty();
    assert(done + lines_from(text@, 0) == lines);
    assert(sections_of(output@) =~= Seq::<Section>::empty());
    while pos < text.len()
        invariant
            pos <= text.len(),
            k <= pos,
            text@ == contents@,
            token == opt_str_text(mtime),
            lines == lines_from(text@, 0),
            done.len() == k,
            done + lines_from(text@, pos as int) == lines,
            sections_upto(lines, token, k as int) == Ok::<Seq<Section>, Seq<char>>(
                with_open(sections_of(output@), name, settings@),
            ),
            name is None ==> output@.len() == 0,
            found_general == has_general(with_open(sections_of(output@), name, settings@)),
        decreases text.len() - pos,
    {
        let end = find_char(&text, pos, '\n');
        let stop = if pos < end && end < text.len() && text[end - 1] == '\r' {
            end - 1
        } else {
            end
        };
        let line = slice_of(&text, pos, stop);
        let ghost sofar = with_open(sections_of(output@), name, settings@);
        proof {
            let rest = lines_from(text@, end + 1);
            assert(lines_from(text@, pos as int) == seq![line@] + rest);
            assert(done + (seq![line@] + rest) == done.push(line@) + rest);
            assert(lines[k as int] == line@);
            done = done.push(line@);
        }
        match read_config_line(&line) {
            ConfigLine::Unreadable => {
                proof {
                    lemma_sections_error_stays(lines, token, k + 1, lines.len() as int);
                }
                return Err(line_message("Syntax error at line ", k + 1, ": expected key/value pair"));
            },
            ConfigLine::Pair(key, value) => {
                if name.is_none() {
                    proof {
                        lemma_sections_error_stays(lines, token, k + 1, lines.len() as int);
                    }
                    return Err(
                        line_message(
                            "Syntax error at line ",
                            k + 1,
                            ": key/value pair found before any module tag",
                        ),
                    );
                }
                add_setting(&mut settings, key, value);
                proof {
                    let now = with_open(sections_of(output@), name, settings@);
                    assert(now =~= sofar.update(
                        sofar.len() - 1,
                        Section {
                            name: sofar.last().name,
                            settings: sofar.last().settings.push((key@, value@)),
                        },
                    ));
                    lemma_general_by_names(sofar, now);
                }
            },
            ConfigLine::Header(section) => {
                if let Some(open) = name {
                    add_section(&mut output, open, settings);
                }
                let is_general = same_text(section.as_str(), "general");
                settings = Vec::new();
                if is_general {
                    found_general = true;
                    if let Some(m) = mtime {
                        add_setting(&mut settings, "configmtime".to_owned(), m.to_owned());
                    }
                }
                assert(pairs_of(settings@) =~= first_settings(section@, token));
                name = Some(section);
                proof {
                    let now = with_open(sections_of(output@), name, settings@);
                    assert(sections_of(output@) == sofar);
                    assert(now.last().name == section@);
                    if has_general(sofar) {
                        let i = choose|i: int|
                            0 <= i < sofar.len() && (#[trigger] sofar[i]).name == "general"@;
                        assert(now[i] == sofar[i]);
                    }
                    if has_general(now) && !is_general {
                        let i = choose|i: int|
                            0 <= i < now.len() && (#[trigger] now[i]).name == "general"@;
                        assert(sofar[i] == now[i]);
                    }
                }
            },
            ConfigLine::Blank => {},
        }
        k = k + 1;
        pos = if end < text.len() {
            end + 1
        } else {
            end
        };
    }
    proof {
        assert(lines_from(text@, pos as int) == Seq::<Seq<char>>::empty());
        assert(done + Seq::<Seq<char>>::empty() == done);
    }
    if !found_general {
        return Err("The config file is missing the [general] module.".to_owned());
    }
    if let Some(open) = name {
        add_section(&mut output, open, settings);
    }
    Ok(output)
}

/// Whether a configuration has the section `general` depends on the names of its sections
/// alone.
proof fn lemma_general_by_names(a: Seq<Section>, b: Seq<Section>)
    requires
        a.len() == b.len(),
        forall|i: int| 0 <= i < a.len() ==> (#[trigger] a[i]).name == b[i].name,
    ensures
        has_general(a) == has_general(b),
{
    if has_general(a) {
        let i = choose|i: int| 0 <= i < a.len() && (#[trigger] a[i]).name == "general"@;
        assert(b[i].name == "general"@);
    }
    if has_general(b) {
        let i = choose|i: int| 0 <= i < b.len() && (#[trigger] b[i]).name == "general"@;
        assert(a[i].name == "general"@);
    }
}

/// Once reading has failed, it has failed for good.
proof fn lemma_sections_error_stays(
    lines: Seq<Seq<char>>,
    mtime: Option<Seq<char>>,
    k: int,
    n: int,
)
    requires
        k <= n,
        sections_upto(lines, mtime, k) is Err,
    ensures
        sections_upto(lines, mtime, n) == sections_upto(lines, mtime, k),
    decreases n - k,
{
    if k < n {
        lemma_sections_error_stays(lines, mtime, k, n - 1);
    }
}

/// `path` with `tail` after it.
fn path_with(path: &str, tail: &str) -> (r: String)
    ensures
        r@ == path@ + tail@,
{
    let mut out = chars_of(path);
    let tail = chars_of(tail);
    append_chars(&mut out, &tail);
    string_of(&out)
}

/// The directory `.config` under `home`, where `home` is known.
pub fn get_fake_xdg_config_path(home: Option<&str>) -> (r: Option<String>)
    ensures
        r is Some <==> home is Some,
        r matches Some(path) ==> path@ == home.unwrap()@ + "/.config"@,
{
    match home {
        Some(home) => Some(path_with(home, "/.config")),
        None => None,
    }
}

/// The directory that holds the configurations of all programs: `xdg` where it is known, else
/// `.config` under `home`, where that is known.
pub fn get_general_config_path(xdg: Option<&str>, home: Option<&str>) -> (r: Option<String>)
    ensures
        r is Some <==> xdg is Some || home is Some,
        r matches Some(path) ==> path@ == match xdg {
            Some(dir) => dir@,
            None => home.unwrap()@ + "/.config"@,
        },
{
    match xdg {
        Some(dir) => Some(dir.to_owned()),
        None => get_fake_xdg_config_path(home),
    }
}

/// The directory that holds this program's configuration.
pub fn get_config_path(xdg: Option<&str>, home: Option<&str>) -> (r: Option<String>)
    ensures
        r is Some <==> xdg is Some || home is Some,
        r matches Some(path) ==> path@ == match xdg {
            Some(dir) => dir@,
            None => home.unwrap()@ + "/.config"@,
        } + "/corrodedbar"@,
{
    match get_general_config_path(xdg, home) {
        Some(dir) => Some(path_with(dir.as_str(), "/corrodedbar")),
        None => None,
    }
}

/// The configuration file in the directory `dir`.
pub fn get_config_file_path(dir: &str) -> (r: String)
    ensures
        r@ == dir@ + "/main.conf"@,
{
    path_with(dir, "/main.conf")
}

} // verus!
