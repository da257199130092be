//! The Linux application-menu entry: where the `.desktop` file and the icon
//! go under `$XDG_DATA_HOME`, what the `.desktop` file says, and how the
//! executable's path is quoted on its `Exec=` line.
//!
//! Paths are plain strings joined the way `PathBuf::join` joins them on
//! Unix; reading the environment and touching the disk is left to the caller.
use vstd::prelude::*;

use crate::brand::{APP_ID, APP_NAME};
use crate::text::{decimal, push_char, push_decimal};

verus! {

broadcast use vstd::seq_lib::group_seq_properties;

/// The icon's name in the hicolor theme (the value of `Icon=`).
pub const ICON_NAME: &'static str = "germal";

/// The hicolor size the icon is written under; the logo is 512 px square.
pub const ICON_SIZE: u64 = 512;

/// A Unix path is absolute when it starts at the root.
pub open spec fn is_absolute(p: Seq<char>) -> bool {
    p.len() > 0 && p[0] == '/'
}

/// `base` joined with `rel` as `PathBuf::join` does on Unix: an absolute
/// `rel` replaces `base`; otherwise a separator goes between them unless
/// `base` is empty or already ends with one.
pub open spec fn path_join(base: Seq<char>, rel: Seq<char>) -> Seq<char> {
    if is_absolute(rel) {
        rel
    } else if base.len() == 0 || base.last() == '/' {
        base + rel
    } else {
        base + seq!['/'] + rel
    }
}

/// Joins two paths (see [`path_join`]).
pub fn join(base: &str, rel: &str) -> (r: String)
    ensures
        r@ == path_join(base@, rel@),
{
    let rn = rel.unicode_len();
    if rn > 0 && rel.get_char(0) == '/' {
        return String::from_str(rel);
    }
    let n = base.unicode_len();
    let mut out = String::from_str(base);
    if n > 0 && base.get_char(n - 1) != '/' {
        push_char(&mut out, '/');
    }
    out.append(rel);
    out
}

/// The two locations under `$XDG_DATA_HOME` (by default `~/.local/share`).
#[derive(Debug, Clone, PartialEq, Eq)]
pub struct XdgDirs {
    data_home: String,
}

impl XdgDirs {
    /// The data directory these locations are under.
    pub closed spec fn spec_data_home(&self) -> Seq<char> {
        self.data_home@
    }

    pub fn new(data_home: &str) -> (d: XdgDirs)
        ensures
            d.spec_data_home() == data_home@,
    {
        XdgDirs { data_home: String::from_str(data_home) }
    }

    pub fn data_home(&self) -> (s: &str)
        ensures
            s@ == self.spec_data_home(),
    {
        self.data_home.as_str()
    }

    /// The XDG Base Directory rule: `$XDG_DATA_HOME` when it is set to an
    /// absolute path (a relative or empty value counts as unset), otherwise
    /// `$HOME/.local/share`; nothing without a home.
    pub fn resolve(xdg_data_home: Option<String>, home: Option<String>) -> (d: Option<XdgDirs>)
        ensures
            match xdg_data_home {
                Some(x) if is_absolute(x@) => d matches Some(v) && v.spec_data_home() == x@,
                _ => match home {
                    Some(h) => d matches Some(v) && v.spec_data_home() == path_join(
                        h@,
                        ".local/share"@,
                    ),
                    None => d is None,
                },
            },
    {
        match xdg_data_home {
            Some(x) => {
                let n = x.as_str().unicode_len();
                if n > 0 && x.as_str().get_char(0) == '/' {
                    return Some(XdgDirs { data_home: x });
                }
            },
            None => {},
        }
        match home {
            Some(h) => Some(XdgDirs { data_home: join(h.as_str(), ".local/share") }),
            None => None,
        }
    }

    /// `<data>/applications/<app id>.desktop`.
    pub fn desktop_file(&self) -> (p: String)
        ensures
            p@ == path_join(
                path_join(self.spec_data_home(), "applications"@),
                APP_ID@ + ".desktop"@,
            ),
    {
        let dir = join(self.data_home.as_str(), "applications");
        let mut name = String::from_str(APP_ID);
        name.append(".desktop");
        join(dir.as_str(), name.as_str())
    }

    /// `<data>/icons/hicolor/512x512/apps/germal.png`.
    #[verifier::rlimit(40)]
    pub fn icon_file(&self) -> (p: String)
        ensures
            p@ == path_join(
                path_join(
                    path_join(
                        path_join(self.spec_data_home(), "icons/hicolor"@),
                        decimal(ICON_SIZE as nat) + seq!['x'] + decimal(ICON_SIZE as nat),
                    ),
                    "apps"@,
                ),
                ICON_NAME@ + ".png"@,
            ),
    {
        let hicolor = join(self.data_home.as_str(), "icons/hicolor");
        let mut size = String::new();
        push_decimal(&mut size, ICON_SIZE);
        push_char(&mut size, 'x');
        push_decimal(&mut size, ICON_SIZE);
        let sized = join(hicolor.as_str(), size.as_str());
        let apps = join(sized.as_str(), "apps");
        let mut name = String::from_str(ICON_NAME);
        name.append(".png");
        join(apps.as_str(), name.as_str())
    }
}

/// Characters that make an `Exec=` argument need double quotes.
pub open spec fn is_reserved(c: char) -> bool {
    c == ' ' || c == '\t' || c == '\n' || c == '"' || c == '\'' || c == '\\' || c == '>' || c
        == '<' || c == '~' || c == '|' || c == '&' || c == ';' || c == '$' || c == '*' || c == '?'
        || c == '#' || c == '(' || c == ')' || c == '`'
}

pub open spec fn has_reserved(s: Seq<char>) -> bool {
    exists|i: int| 0 <= i < s.len() && is_reserved(s[i])
}

/// Characters that take a backslash inside double quotes.
pub open spec fn needs_escape(c: char) -> bool {
    c == '\\' || c == '"' || c == '`' || c == '$'
}

pub open spec fn escape_char(c: char) -> Seq<char> {
    if needs_escape(c) {
        seq!['\\', c]
    } else {
        seq![c]
    }
}

/// The inside of a quoted argument: every special character backslashed.
pub open spec fn escape_quoted(s: Seq<char>) -> Seq<char>
    decreases s.len(),
{
    if s.len() == 0 {
        Seq::empty()
    } else {
        escape_char(s[0]) + escape_quoted(s.drop_first())
    }
}

/// Every `%` doubled (a single `%` starts a field code).
pub open spec fn double_percent(s: Seq<char>) -> Seq<char>
    decreases s.len(),
{
    if s.len() == 0 {
        Seq::empty()
    } else {
        (if s[0] == '%' {
            seq!['%', '%']
        } else {
            seq![s[0]]
        }) + double_percent(s.drop_first())
    }
}

/// The argument before the `%` doubling: the path itself, or in double
/// quotes with escapes when it holds a reserved character.
pub open spec fn quote_arg(s: Seq<char>) -> Seq<char> {
    if has_reserved(s) {
        seq!['"'] + escape_quoted(s) + seq!['"']
    } else {
        s
    }
}

/// The `Exec=` argument for a path.
pub open spec fn spec_exec_quote(s: Seq<char>) -> Seq<char> {
    double_percent(quote_arg(s))
}

proof fn lemma_escape_push(a: Seq<char>, c: char)
    ensures
        escape_quoted(a.push(c)) == escape_quoted(a) + escape_char(c),
    decreases a.len(),
{
    if a.len() == 0 {
        assert(a.push(c).drop_first() =~= Seq::<char>::empty());
        assert(escape_quoted(Seq::<char>::empty()) == Seq::<char>::empty());
        assert(escape_quoted(a) == Seq::<char>::empty());
        assert(escape_quoted(a.push(c)) =~= escape_char(c) + escape_quoted(Seq::<char>::empty()));
        assert(escape_quoted(a.push(c)) =~= escape_quoted(a) + escape_char(c));
    } else {
        assert(a.push(c).drop_first() =~= a.drop_first().push(c));
        lemma_escape_push(a.drop_first(), c);
        assert(escape_quoted(a.push(c)) =~= escape_quoted(a) + escape_char(c));
    }
}

proof fn lemma_double_push(a: Seq<char>, c: char)
    ensures
        double_percent(a.push(c)) == double_percent(a) + (if c == '%' {
            seq!['%', '%']
        } else {
            seq![c]
        }),
    decreases a.len(),
{
    if a.len() == 0 {
        assert(a.push(c).drop_first() =~= Seq::<char>::empty());
        assert(double_percent(Seq::<char>::empty()) == Seq::<char>::empty());
        assert(double_percent(a) == Seq::<char>::empty());
        assert(double_percent(a.push(c)) =~= double_percent(a) + (if c == '%' {
            seq!['%', '%']
        } else {
            seq![c]
        }));
    } else {
        assert(a.push(c).drop_first() =~= a.drop_first().push(c));
        lemma_double_push(a.drop_first(), c);
        assert(double_percent(a.push(c)) =~= double_percent(a) + (if c == '%' {
            seq!['%', '%']
        } else {
            seq![c]
        }));
    }
}

fn is_reserved_char(c: char) -> (r: bool)
    ensures
        r == is_reserved(c),
{
    c == ' ' || c == '\t' || c == '\n' || c == '"' || c == '\'' || c == '\\' || c == '>' || c
        == '<' || c == '~' || c == '|' || c == '&' || c == ';' || c == '$' || c == '*' || c == '?'
        || c == '#' || c == '(' || c == ')' || c == '`'
}

/// Quotes a path as one argument of the `Exec=` key (Desktop Entry
/// specification): a path holding a reserved character goes in double
/// quotes, with `\`, `"`, `` ` `` and `$` backslashed inside; finally every
/// `%` is doubled.
pub fn exec_quote(path: &str) -> (r: String)
    ensures
        r@ == spec_exec_quote(path@),
{
    let n = path.unicode_len();
    let mut reserved = false;
    let mut i: usize = 0;
    while i < n
        invariant
            n == path@.len(),
            i <= n,
            reserved == exists|j: int| 0 <= j < i && is_reserved(path@[j]),
        decreases n - i,
    {
        if is_reserved_char(path.get_char(i)) {
            reserved = true;
        }
        i = i + 1;
    }
    let mut quoted = String::new();
    if reserved {
        push_char(&mut quoted, '"');
        let mut k: usize = 0;
        assert(path@.take(0) =~= Seq::<char>::empty());
        while k < n
            invariant
                n == path@.len(),
                k <= n,
                quoted@ == seq!['"'] + escape_quoted(path@.take(k as int)),
            decreases n - k,
        {
            let c = path.get_char(k);
            if c == '\\' || c == '"' || c == '`' || c == '$' {
                push_char(&mut quoted, '\\');
            }
            push_char(&mut quoted, c);
            proof {
                lemma_escape_push(path@.take(k as int), c);
                assert(path@.take(k + 1) =~= path@.take(k as int).push(c));
            }
            k = k + 1;
        }
        assert(path@.take(n as int) =~= path@);
        push_char(&mut quoted, '"');
    } else {
        quoted.append(path);
    }
    let q = quoted.as_str();
    let m = q.unicode_len();
    let mut out = String::new();
    let mut j: usize = 0;
    assert(q@.take(0) =~= Seq::<char>::empty());
    while j < m
        invariant
            m == q@.len(),
            j <= m,
            out@ == double_percent(q@.take(j as int)),
        decreases m - j,
    {
        let c = q.get_char(j);
        if c == '%' {
            push_char(&mut out, '%');
        }
        push_char(&mut out, c);
        proof {
            lemma_double_push(q@.take(j as int), c);
            assert(q@.take(j + 1) =~= q@.take(j as int).push(c));
        }
        j = j + 1;
    }
    assert(q@.take(m as int) =~= q@);
    assert(reserved == has_reserved(path@));
    assert(q@ == quote_arg(path@));
    out
}

/// `%%` read back as `%`.
pub open spec fn undouble_percent(s: Seq<char>) -> Seq<char>
    decreases s.len(),
{
    if s.len() == 0 {
        Seq::empty()
    } else if s.len() >= 2 && s[0] == '%' && s[1] == '%' {
        seq!['%'] + undouble_percent(s.skip(2))
    } else {
        seq![s[0]] + undouble_percent(s.drop_first())
    }
}

/// Backslash escapes inside double quotes read back.
pub open spec fn unescape(s: Seq<char>) -> Seq<char>
    decreases s.len(),
{
    if s.len() == 0 {
        Seq::empty()
    } else if s.len() >= 2 && s[0] == '\\' {
        seq![s[1]] + unescape(s.skip(2))
    } else {
        seq![s[0]] + unescape(s.drop_first())
    }
}

/// How a launcher reads one `Exec=` argument back: field codes first (`%%`
/// is a `%`), then the quoting.
pub open spec fn exec_unquote(s: Seq<char>) -> Seq<char> {
    let t = undouble_percent(s);
    if t.len() >= 2 && t[0] == '"' && t.last() == '"' {
        unescape(t.subrange(1, t.len() - 1))
    } else {
        t
    }
}

proof fn lemma_undouble_double(s: Seq<char>)
    ensures
        undouble_percent(double_percent(s)) == s,
    decreases s.len(),
{
    if s.len() > 0 {
        lemma_undouble_double(s.drop_first());
        let d = double_percent(s);
        let rest = double_percent(s.drop_first());
        if s[0] == '%' {
            assert(d =~= seq!['%', '%'] + rest);
            assert(d.skip(2) =~= rest);
        } else {
            assert(d =~= seq![s[0]] + rest);
            assert(d.drop_first() =~= rest);
        }
        assert(undouble_percent(d) =~= s);
    }
}

proof fn lemma_unescape_escape(s: Seq<char>)
    ensures
        unescape(escape_quoted(s)) == s,
    decreases s.len(),
{
    if s.len() > 0 {
        lemma_unescape_escape(s.drop_first());
        let e = escape_quoted(s);
        let rest = escape_quoted(s.drop_first());
        if needs_escape(s[0]) {
            assert(e =~= seq!['\\', s[0]] + rest);
            assert(e.skip(2) =~= rest);
        } else {
            assert(e =~= seq![s[0]] + rest);
            assert(e.drop_first() =~= rest);
        }
        assert(unescape(e) =~= s);
    }
}

/// A launcher reading the `Exec=` argument gets the path back: quoting
/// loses nothing and the result is one argument.
pub proof fn lemma_exec_quote_round_trips(path: Seq<char>)
    ensures
        exec_unquote(spec_exec_quote(path)) == path,
{
    let q = quote_arg(path);
    lemma_undouble_double(q);
    if has_reserved(path) {
        let e = escape_quoted(path);
        lemma_unescape_escape(path);
        assert(q.subrange(1, q.len() - 1) =~= e);
    } else {
        if path.len() > 0 && path[0] == '"' {
            assert(is_reserved(path[0]));
        }
    }
}

proof fn lemma_double_percent_plain(s: Seq<char>)
    requires
        forall|i: int| 0 <= i < s.len() ==> s[i] != '%',
    ensures
        double_percent(s) == s,
    decreases s.len(),
{
    if s.len() > 0 {
        lemma_double_percent_plain(s.drop_first());
        assert(double_percent(s) =~= s);
    }
}

/// A path holding any character the Desktop Entry specification reserves
/// (space, tab, newline, `"`, `'`, `\`, `>`, `<`, `~`, `|`, `&`, `;`, `$`,
/// `*`, `?`, `#`, `(`, `)`, `` ` ``) is written in double quotes: the
/// argument opens and closes with `"` once the `%` doubling is read back.
/// A path with none of them and no `%` is written as it is.
pub proof fn lemma_reserved_paths_are_quoted(path: Seq<char>)
    ensures
        (exists|i: int|
            0 <= i < path.len() && {
                let c = #[trigger] path[i];
                c == ' ' || c == '\t' || c == '\n' || c == '"' || c == '\'' || c == '\\' || c == '>'
                    || c == '<' || c == '~' || c == '|' || c == '&' || c == ';' || c == '$' || c
                    == '*' || c == '?' || c == '#' || c == '(' || c == ')' || c == '`'
            }) ==> {
            let t = undouble_percent(spec_exec_quote(path));
            &&& t.len() >= 2
            &&& t[0] == '"'
            &&& t.last() == '"'
            &&& spec_exec_quote(path)[0] == '"'
        },
        (forall|i: int|
            0 <= i < path.len() ==> {
                let c = #[trigger] path[i];
                !(c == ' ' || c == '\t' || c == '\n' || c == '"' || c == '\'' || c == '\\' || c
                    == '>' || c == '<' || c == '~' || c == '|' || c == '&' || c == ';' || c == '$'
                    || c == '*' || c == '?' || c == '#' || c == '(' || c == ')' || c == '`' || c
                    == '%')
            }) ==> spec_exec_quote(path) == path,
{
    let q = quote_arg(path);
    lemma_undouble_double(q);
    if exists|i: int|
        0 <= i < path.len() && {
            let c = #[trigger] path[i];
            c == ' ' || c == '\t' || c == '\n' || c == '"' || c == '\'' || c == '\\' || c == '>'
                || c == '<' || c == '~' || c == '|' || c == '&' || c == ';' || c == '$' || c == '*'
                || c == '?' || c == '#' || c == '(' || c == ')' || c == '`'
        } {
        let i = choose|i: int|
            0 <= i < path.len() && {
                let c = #[trigger] path[i];
                c == ' ' || c == '\t' || c == '\n' || c == '"' || c == '\'' || c == '\\' || c
                    == '>' || c == '<' || c == '~' || c == '|' || c == '&' || c == ';' || c == '$'
                    || c == '*' || c == '?' || c == '#' || c == '(' || c == ')' || c == '`'
            };
        assert(is_reserved(path[i]));
        assert(has_reserved(path));
        assert(q[0] == '"');
        assert(double_percent(q) =~= seq![q[0]] + double_percent(q.drop_first()));
    }
    if forall|i: int|
        0 <= i < path.len() ==> {
            let c = #[trigger] path[i];
            !(c == ' ' || c == '\t' || c == '\n' || c == '"' || c == '\'' || c == '\\' || c == '>'
                || c == '<' || c == '~' || c == '|' || c == '&' || c == ';' || c == '$' || c == '*'
                || c == '?' || c == '#' || c == '(' || c == ')' || c == '`' || c == '%')
        } {
        assert(!has_reserved(path)) by {
            if has_reserved(path) {
                let j = choose|j: int| 0 <= j < path.len() && is_reserved(path[j]);
                assert(is_reserved(path[j]));
            }
        }
        lemma_double_percent_plain(path);
    }
}

/// The `.desktop` file for the executable at `exe`.
pub open spec fn spec_desktop_entry(exe: Seq<char>) -> Seq<char> {
    "[Desktop Entry]\n"@ + "Type=Application\n"@ + "Version=1.5\n"@ + "Name="@ + APP_NAME@
        + "\n"@ + "Comment=Native HTTP API client\n"@
        + "Comment[zh_CN]=原生 HTTP 接口调试客户端\n"@
        + "Comment[ja]=ネイティブ HTTP API クライアント\n"@ + "Exec="@
        + spec_exec_quote(exe) + "\n"@ + "Icon="@ + ICON_NAME@ + "\n"@ + "Terminal=false\n"@
        + "Categories=Development;Network;\n"@ + "Keywords=http;api;rest;request;\n"@
        + "StartupWMClass="@ + APP_ID@ + "\n"@
}

/// The `.desktop` file content; `exe` is the absolute path of the executable
/// to start. The `Comment` translations use the format's own localised keys,
/// chosen by the desktop by system language.
pub fn desktop_entry(exe: &str) -> (r: String)
    ensures
        r@ == spec_desktop_entry(exe@),
{
    let mut out = String::new();
    out.append("[Desktop Entry]\n");
    out.append("Type=Application\n");
    out.append("Version=1.5\n");
    out.append("Name=");
    out.append(APP_NAME);
    out.append("\n");
    out.append("Comment=Native HTTP API client\n");
    out.append("Comment[zh_CN]=原生 HTTP 接口调试客户端\n");
    out.append("Comment[ja]=ネイティブ HTTP API クライアント\n");
    out.append("Exec=");
    let q = exec_quote(exe);
    out.append(q.as_str());
    out.append("\n");
    out.append("Icon=");
    out.append(ICON_NAME);
    out.append("\n");
    out.append("Terminal=false\n");
    out.append("Categories=Development;Network;\n");
    out.append("Keywords=http;api;rest;request;\n");
    out.append("StartupWMClass=");
    out.append(APP_ID);
    out.append("\n");
    out
}

} // verus!
