//! The configuration of the application, and how it is resolved from the
//! raw values that were given on the command line.

use crate::text::{decimal, digit_char, extend_chars, from_chars, replaced, substitute, to_chars};
use vstd::prelude::*;
use vstd::string::*;

verus! {

/// Representation of the application's all configurable values.
#[derive(Debug, Hash, PartialEq, Eq)]
pub struct Options {
    /// The directory to host: as it was given, and its canonical path.
    pub hosted_directory: (String, String),
    /// The port to host on. `None`: the first free port of the scan range.
    pub port: Option<u16>,
    /// Whether to allow symlinks to be requested.
    pub follow_symlinks: bool,
    /// The directory that writes are staged in, if writes are allowed: as
    /// it is shown, and its path.
    pub temp_directory: Option<(String, String)>,
}

/// What an `Options` value holds.
pub struct OptionsView {
    pub hosted_directory: (Seq<char>, Seq<char>),
    pub port: Option<u16>,
    pub follow_symlinks: bool,
    pub temp_directory: Option<(Seq<char>, Seq<char>)>,
}

impl View for Options {
    type V = OptionsView;

    open spec fn view(&self) -> OptionsView {
        OptionsView {
            hosted_directory: (self.hosted_directory.0@, self.hosted_directory.1@),
            port: self.port,
            follow_symlinks: self.follow_symlinks,
            temp_directory: match self.temp_directory {
                Some(t) => Some((t.0@, t.1@)),
                None => None,
            },
        }
    }
}

impl Clone for Options {
    fn clone(&self) -> (copy: Options)
        ensures
            copy@ == self@,
    {
        Options {
            hosted_directory: (self.hosted_directory.0.clone(), self.hosted_directory.1.clone()),
            port: self.port,
            follow_symlinks: self.follow_symlinks,
            temp_directory: match &self.temp_directory {
                Some(t) => Some((t.0.clone(), t.1.clone())),
                None => None,
            },
        }
    }
}

/// Why no configuration could be made.
#[derive(Debug, Clone, PartialEq, Eq)]
pub enum ConfigError {
    /// The path does not lead to an existing directory.
    InvalidDirectory { path: String },
    /// The text is not a port number.
    InvalidPort { raw: String },
    /// Every port of the scan range is taken.
    NoFreePort,
}

/// What a `ConfigError` value holds.
pub enum ConfigErrorView {
    InvalidDirectory { path: Seq<char> },
    InvalidPort { raw: Seq<char> },
    NoFreePort,
}

impl View for ConfigError {
    type V = ConfigErrorView;

    open spec fn view(&self) -> ConfigErrorView {
        match self {
            ConfigError::InvalidDirectory { path } => ConfigErrorView::InvalidDirectory {
                path: path@,
            },
            ConfigError::InvalidPort { raw } => ConfigErrorView::InvalidPort { raw: raw@ },
            ConfigError::NoFreePort => ConfigErrorView::NoFreePort,
        }
    }
}

/// What the filesystem said of a path that was to be a directory.
#[derive(Debug, Clone, PartialEq, Eq)]
pub enum DirProbe {
    /// The path could not be made canonical: nothing is there.
    Missing,
    /// Something is there, and it is no directory.
    NotDirectory,
    /// A directory is there, with this canonical path.
    Directory { canonical: String },
}

/// The values of the command line, with what the filesystem said of the
/// paths among them.
#[derive(Debug, Clone, PartialEq, Eq)]
pub struct RawOptions {
    /// The directory to host, if one was given.
    pub directory: Option<String>,
    /// The probe of that directory, or of `.` if none was given.
    pub directory_probe: DirProbe,
    /// The text given for the port, if any.
    pub port: Option<String>,
    /// Whether symlinks are followed.
    pub follow_symlinks: bool,
    /// Whether writes are allowed.
    pub allow_write: bool,
    /// The directory to stage writes under, if one was given.
    pub temp_directory: Option<String>,
    /// The probe of that directory; read only where one was given.
    pub temp_probe: DirProbe,
    /// The temporary directory of the platform.
    pub temp_root: String,
}

/// Whether `c` is a decimal digit.
pub open spec fn is_digit(c: char) -> bool {
    c == '0' || c == '1' || c == '2' || c == '3' || c == '4' || c == '5' || c == '6' || c == '7'
        || c == '8' || c == '9'
}

/// The number that the digit `c` stands for.
pub open spec fn digit_value(c: char) -> nat {
    if c == '1' {
        1
    } else if c == '2' {
        2
    } else if c == '3' {
        3
    } else if c == '4' {
        4
    } else if c == '5' {
        5
    } else if c == '6' {
        6
    } else if c == '7' {
        7
    } else if c == '8' {
        8
    } else if c == '9' {
        9
    } else {
        0
    }
}

/// The number that a sequence of digits writes in base ten.
pub open spec fn numeral_value(s: Seq<char>) -> nat
    decreases s.len(),
{
    if s.len() == 0 {
        0
    } else {
        numeral_value(s.drop_last()) * 10 + digit_value(s.last())
    }
}

/// A port's text without the plus sign that may stand in front.
pub open spec fn unsigned_part(s: Seq<char>) -> Seq<char> {
    if s.len() > 0 && s[0] == '+' {
        s.skip(1)
    } else {
        s
    }
}

/// The port that a text writes: an optional plus sign, then one or more
/// decimal digits that give a number of at most 65535. Any other text
/// writes none.
pub open spec fn port_value(s: Seq<char>) -> Option<u16> {
    let body = unsigned_part(s);
    if body.len() > 0 && (forall|i: int| 0 <= i < body.len() ==> is_digit(#[trigger] body[i]))
        && numeral_value(body) <= 65535 {
        Some(numeral_value(body) as u16)
    } else {
        None
    }
}

/// A numeral is worth at least as much as each of its prefixes.
pub proof fn lemma_numeral_prefix(s: Seq<char>, k: int)
    requires
        0 <= k <= s.len(),
    ensures
        numeral_value(s.take(k)) <= numeral_value(s),
    decreases s.len(),
{
    if k == s.len() {
        assert(s.take(k) =~= s);
    } else {
        lemma_numeral_prefix(s.drop_last(), k);
        assert(s.drop_last().take(k) =~= s.take(k));
    }
}

/// The decimal numeral of a number is made of digits and writes that number.
pub proof fn lemma_decimal_is_numeral(n: nat)
    ensures
        decimal(n).len() > 0,
        forall|i: int| 0 <= i < decimal(n).len() ==> is_digit(#[trigger] decimal(n)[i]),
        numeral_value(decimal(n)) == n,
    decreases n,
{
    if n < 10 {
        assert(decimal(n).drop_last() =~= Seq::<char>::empty());
        assert(numeral_value(decimal(n).drop_last()) == 0);
    } else {
        lemma_decimal_is_numeral(n / 10);
        assert(decimal(n).drop_last() =~= decimal(n / 10));
        assert(digit_value(digit_char(n % 10)) == n % 10);
    }
}

/// Every port is read back from its decimal numeral.
pub proof fn lemma_port_round_trip(port: u16)
    ensures
        port_value(decimal(port as nat)) == Some(port),
{
    lemma_decimal_is_numeral(port as nat);
    assert(is_digit(decimal(port as nat)[0]));
}

fn digit_of(c: char) -> (d: Option<u32>)
    ensures
        d is Some <==> is_digit(c),
        d is Some ==> d->0 == digit_value(c),
{
    match c {
        '0' => Some(0),
        '1' => Some(1),
        '2' => Some(2),
        '3' => Some(3),
        '4' => Some(4),
        '5' => Some(5),
        '6' => Some(6),
        '7' => Some(7),
        '8' => Some(8),
        '9' => Some(9),
        _ => None,
    }
}

/// Reads a port number.
pub fn parse_port(s: &str) -> (port: Option<u16>)
    ensures
        port == port_value(s@),
{
    let chars = to_chars(s);
    let start: usize = if chars.len() > 0 && chars[0] == '+' {
        1
    } else {
        0
    };
    let ghost body = unsigned_part(s@);
    assert(body =~= chars@.skip(start as int));
    if start == chars.len() {
        return None;
    }
    let mut acc: u32 = 0;
    let mut i: usize = start;
    assert(body.take(0) =~= Seq::<char>::empty());
    while i < chars.len()
        invariant
            start <= i <= chars.len(),
            body == chars@.skip(start as int),
            body == unsigned_part(s@),
            acc == numeral_value(body.take(i - start)),
            acc <= 65535,
            forall|j: int| 0 <= j < i - start ==> is_digit(#[trigger] body[j]),
        decreases chars.len() - i,
    {
        let d = match digit_of(chars[i]) {
            Some(d) => d,
            None => {
                assert(!is_digit(body[i - start]));
                return None;
            },
        };
        let ghost next = body.take(i - start + 1);
        assert(next.drop_last() =~= body.take(i - start));
        assert(next.last() == chars@[i as int]);
        acc = acc * 10 + d;
        assert(acc == numeral_value(next));
        if acc > 65535 {
            proof {
                lemma_numeral_prefix(body, i - start + 1);
            }
            return None;
        }
        i += 1;
    }
    assert(body.take(i - start) =~= body);
    Some(acc as u16)
}

/// The name of the directory that writes to a hosted directory are staged
/// in: the tag `http-`, then the hosted directory's canonical path without
/// a verbatim prefix and without colons, each separator turned into a
/// hyphen.
pub open spec fn staging_name_of(canonical: Seq<char>) -> Seq<char> {
    let bare = replaced(canonical, seq!['\\', '\\', '?', '\\'], Seq::empty());
    let driveless = replaced(bare, seq![':'], Seq::empty());
    let slashed = replaced(driveless, seq!['\\'], seq!['/']);
    "http-"@ + replaced(slashed, seq!['/'], seq!['-'])
}

fn single(c: char) -> (v: Vec<char>)
    ensures
        v@ == seq![c],
{
    let mut v: Vec<char> = Vec::new();
    v.push(c);
    assert(v@ =~= seq![c]);
    v
}

/// Derives the name of the staging directory of a hosted directory.
pub fn staging_name(canonical: &str) -> (name: String)
    ensures
        name@ == staging_name_of(canonical@),
{
    let chars = to_chars(canonical);
    let nothing: Vec<char> = Vec::new();
    let mut verbatim: Vec<char> = Vec::new();
    verbatim.push('\\');
    verbatim.push('\\');
    verbatim.push('?');
    verbatim.push('\\');
    assert(verbatim@ =~= seq!['\\', '\\', '?', '\\']);
    assert(nothing@ =~= Seq::<char>::empty());
    let colon = single(':');
    let backslash = single('\\');
    let slash = single('/');
    let hyphen = single('-');
    let bare = substitute(chars.as_slice(), verbatim.as_slice(), nothing.as_slice());
    let driveless = substitute(bare.as_slice(), colon.as_slice(), nothing.as_slice());
    let slashed = substitute(driveless.as_slice(), backslash.as_slice(), slash.as_slice());
    let flat = substitute(slashed.as_slice(), slash.as_slice(), hyphen.as_slice());
    let mut out = to_chars("http-");
    extend_chars(&mut out, flat.as_slice());
    from_chars(out.as_slice())
}

/// Whether a path as it is shown ends in a separator: a slash or a
/// backslash.
pub open spec fn ends_in_separator(s: Seq<char>) -> bool {
    s.len() > 0 && (s.last() == '/' || s.last() == '\\')
}

/// How the entry `name` of the directory shown as `base` is shown: a
/// separator stands between the two unless `base` ends in one.
pub open spec fn shown_entry(base: Seq<char>, name: Seq<char>) -> Seq<char> {
    if ends_in_separator(base) {
        base + name
    } else {
        base + seq!['/'] + name
    }
}

/// Whether a backslash separates the parts of paths below `base`: it does
/// where `base` holds one and does not begin with a slash. A path that
/// begins with a slash is of a filesystem on which a backslash is a
/// character of a name like any other.
pub open spec fn backslash_separates(base: Seq<char>) -> bool {
    base.contains('\\') && base[0] != '/'
}

/// Whether `c` separates the parts of paths below `base`: a slash always
/// does, a backslash only where `backslash_separates`.
pub open spec fn separates(base: Seq<char>, c: char) -> bool {
    c == '/' || (c == '\\' && backslash_separates(base))
}

/// The path of the entry `name` of the directory `base`: a slash stands
/// between the two unless `base` ends in a character that separates; an
/// empty `base` gives `name` alone.
pub open spec fn entry_path(base: Seq<char>, name: Seq<char>) -> Seq<char> {
    if base.len() == 0 {
        name
    } else if separates(base, base.last()) {
        base + name
    } else {
        base + seq!['/'] + name
    }
}

fn join_shown(base: &str, name: &str) -> (out: String)
    ensures
        out@ == shown_entry(base@, name@),
{
    let mut v = to_chars(base);
    let n: usize = v.len();
    if !(n > 0 && (v[n - 1] == '/' || v[n - 1] == '\\')) {
        v.push('/');
    }
    let tail = to_chars(name);
    extend_chars(&mut v, tail.as_slice());
    from_chars(v.as_slice())
}

/// Joins the path of a directory and the name of an entry in it.
pub fn join_path(base: &str, name: &str) -> (out: String)
    ensures
        out@ == entry_path(base@, name@),
{
    let mut v = to_chars(base);
    let n: usize = v.len();
    if n == 0 {
        return String::from_str(name);
    }
    let separated = v[n - 1] == '/' || (v[n - 1] == '\\' && v[0] != '/');
    proof {
        if v@[n - 1] == '\\' {
            assert(base@.contains('\\'));
        }
        assert(separated == separates(base@, base@.last()));
    }
    if !separated {
        v.push('/');
    }
    let tail = to_chars(name);
    extend_chars(&mut v, tail.as_slice());
    from_chars(v.as_slice())
}

/// The directory that is hosted when none was given.
pub open spec fn default_directory() -> Seq<char> {
    "."@
}

/// How the temporary directory of the platform is shown.
pub open spec fn default_temp_label() -> Seq<char> {
    "$TEMP"@
}

/// The hosted directory as it is shown.
pub open spec fn shown_directory(raw: RawOptions) -> Seq<char> {
    match raw.directory {
        Some(d) => d@,
        None => default_directory(),
    }
}

/// The staging directory for a hosted directory with the given canonical
/// path: under the directory that was given if one was, else under the
/// temporary directory of the platform.
pub open spec fn staging_directory(raw: RawOptions, canonical: Seq<char>) -> (Seq<char>, Seq<char>) {
    let name = staging_name_of(canonical);
    match (raw.temp_directory, raw.temp_probe) {
        (Some(given), DirProbe::Directory { canonical: temp }) => (
            shown_entry(given@, name),
            entry_path(temp@, name),
        ),
        _ => (shown_entry(default_temp_label(), name), entry_path(raw.temp_root@, name)),
    }
}

/// The configuration that raw values resolve to, or the error that they
/// fail with. The hosted directory is judged first, then the port, then the
/// directory for staging, which is read only where writes are allowed.
pub open spec fn resolved(raw: RawOptions) -> Result<OptionsView, ConfigErrorView> {
    match raw.directory_probe {
        DirProbe::Directory { canonical } => {
            if raw.port is Some && port_value(raw.port->0@) is None {
                Err(ConfigErrorView::InvalidPort { raw: raw.port->0@ })
            } else if raw.allow_write && raw.temp_directory is Some
                && !(raw.temp_probe is Directory) {
                Err(ConfigErrorView::InvalidDirectory { path: raw.temp_directory->0@ })
            } else {
                Ok(
                    OptionsView {
                        hosted_directory: (shown_directory(raw), canonical@),
                        port: match raw.port {
                            Some(text) => port_value(text@),
                            None => None,
                        },
                        follow_symlinks: raw.follow_symlinks,
                        temp_directory: if raw.allow_write {
                            Some(staging_directory(raw, canonical@))
                        } else {
                            None
                        },
                    },
                )
            }
        },
        _ => Err(ConfigErrorView::InvalidDirectory { path: shown_directory(raw) }),
    }
}

/// The message for a path that is no directory.
pub open spec fn directory_complaint(s: Seq<char>, prefix: Seq<char>, probe: DirProbe) -> Seq<char> {
    if probe is Missing {
        prefix + " \""@ + s + "\" not found"@
    } else {
        prefix + " \""@ + s + "\" not actualy a directory"@
    }
}

impl Options {
    /// Resolves the raw values into a configuration.
    pub fn resolve(raw: RawOptions) -> (r: Result<Options, ConfigError>)
        ensures
            match r {
                Ok(options) => resolved(raw) == Ok::<OptionsView, ConfigErrorView>(options@),
                Err(e) => resolved(raw) == Err::<OptionsView, ConfigErrorView>(e@),
            },
            r is Ok ==> raw.directory_probe is Directory && r->Ok_0@.hosted_directory.1
                == raw.directory_probe->canonical@,
            !(raw.directory_probe is Directory) ==> r is Err && r->Err_0@
                == (ConfigErrorView::InvalidDirectory { path: shown_directory(raw) }),
    {
        let ghost given = raw;
        let RawOptions {
            directory,
            directory_probe,
            port,
            follow_symlinks,
            allow_write,
            temp_directory,
            temp_probe,
            temp_root,
        } = raw;
        let shown = match directory {
            Some(d) => d,
            None => String::from_str("."),
        };
        let canonical = match directory_probe {
            DirProbe::Directory { canonical } => canonical,
            _ => {
                return Err(ConfigError::InvalidDirectory { path: shown });
            },
        };
        let port = match port {
            Some(text) => match parse_port(text.as_str()) {
                Some(p) => Some(p),
                None => {
                    return Err(ConfigError::InvalidPort { raw: text });
                },
            },
            None => None,
        };
        let temp_directory = if allow_write {
            let name = staging_name(canonical.as_str());
            let (label, root) = match temp_directory {
                Some(dir) => match temp_probe {
                    DirProbe::Directory { canonical: temp } => (dir, temp),
                    _ => {
                        return Err(ConfigError::InvalidDirectory { path: dir });
                    },
                },
                None => (String::from_str("$TEMP"), temp_root),
            };
            Some((join_shown(label.as_str(), name.as_str()), join_path(root.as_str(), name.as_str())))
        } else {
            None
        };
        let options = Options {
            hosted_directory: (shown, canonical),
            port,
            follow_symlinks,
            temp_directory,
        };
        assert(resolved(given) == Ok::<OptionsView, ConfigErrorView>(options@));
        Ok(options)
    }

    /// Judges a path that is to be a directory by what the filesystem said
    /// of it; `prefix` says in the message what the path was given for.
    pub fn filesystem_dir_validator(s: String, prefix: &str, probe: &DirProbe) -> (r: Result<
        (),
        String,
    >)
        ensures
            r is Ok <==> *probe is Directory,
            r is Err ==> r->Err_0@ == directory_complaint(s@, prefix@, *probe),
    {
        match probe {
            DirProbe::Directory { .. } => Ok(()),
            DirProbe::Missing => Err(
                String::from_str(prefix).concat(" \"").concat(s.as_str()).concat("\" not found"),
            ),
            DirProbe::NotDirectory => Err(
                String::from_str(prefix).concat(" \"").concat(s.as_str()).concat(
                    "\" not actualy a directory",
                ),
            ),
        }
    }

    /// Judges the text given for a port.
    pub fn u16_validator(s: String) -> (r: Result<(), String>)
        ensures
            r is Ok <==> port_value(s@) is Some,
            r is Err ==> r->Err_0@ == s@ + " is not a valid port number"@,
    {
        match parse_port(s.as_str()) {
            Some(_) => Ok(()),
            None => Err(s.concat(" is not a valid port number")),
        }
    }
}

} // verus!
