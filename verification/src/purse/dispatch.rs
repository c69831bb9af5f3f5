//! Dispatching held files: to the editor at a position when one was sent,
//! else to the application associated with the file's type (from
//! `associations.conf`), else to the first other handler GIO knows.
use vstd::prelude::*;
use crate::paths::{path_join, join_path};
use crate::text::{
    chars_of, trim, trim_chars, split_char, split_chars, find_char, find_char_in, slice_chars,
    string_of, dec, dec_string, concat, own, str_eq,
};
use vstd::string::StringExecFns;

verus! {

/// The application id of the Purse invoker itself, which dispatch skips.
pub open spec fn self_desktop_id() -> Seq<char> {
    "purse-niri.desktop"@
}

/// The association a configuration line declares, if any: blank lines and
/// `#` comments declare none; otherwise `mime = app` around the first `=`,
/// both sides trimmed.
pub open spec fn line_association(line: Seq<char>) -> Option<(Seq<char>, Seq<char>)> {
    let l = trim(line);
    if l.len() == 0 || l[0] == '#' {
        None
    } else {
        match find_char(l, '=') {
            Some(k) => Some((trim(l.subrange(0, k)), trim(l.subrange(k + 1, l.len() as int)))),
            None => None,
        }
    }
}

/// The associations declared by configuration lines, a later line for the
/// same MIME type replacing an earlier one.
pub open spec fn associations_of(lines: Seq<Seq<char>>) -> Map<Seq<char>, Seq<char>>
    decreases lines.len(),
{
    if lines.len() == 0 {
        Map::empty()
    } else {
        let m = associations_of(lines.drop_last());
        match line_association(lines.last()) {
            Some((k, v)) => m.insert(k, v),
            None => m,
        }
    }
}

/// The association of a MIME type is the one of the last line that
/// declares it: lines after it that declare other types leave it as it is.
pub proof fn law_last_association_wins(
    pre: Seq<Seq<char>>,
    line: Seq<char>,
    post: Seq<Seq<char>>,
    mime: Seq<char>,
    app: Seq<char>,
)
    requires
        line_association(line) == Some((mime, app)),
        forall|k: int| 0 <= k < post.len() ==> !(#[trigger] line_association(post[k]) matches Some(
            (m, _),
        ) && m == mime),
    ensures
        associations_of(pre.push(line) + post).contains_key(mime),
        associations_of(pre.push(line) + post)[mime] == app,
    decreases post.len(),
{
    let all = pre.push(line) + post;
    if post.len() == 0 {
        assert(all =~= pre.push(line));
        assert(all.drop_last() =~= pre);
    } else {
        let front = post.drop_last();
        assert(forall|k: int| 0 <= k < front.len() ==> front[k] == post[k]);
        law_last_association_wins(pre, line, front, mime, app);
        assert(all.drop_last() =~= pre.push(line) + front);
        assert(all.last() == post[post.len() - 1]);
    }
}

/// The map that a list of `(mime, app)` entries stands for: a later entry
/// for a MIME type replaces an earlier one.
pub open spec fn entries_map(entries: Seq<(String, String)>) -> Map<Seq<char>, Seq<char>>
    decreases entries.len(),
{
    if entries.len() == 0 {
        Map::empty()
    } else {
        entries_map(entries.drop_last()).insert(entries.last().0@, entries.last().1@)
    }
}

/// File associations: MIME type to desktop application id.
#[derive(Debug)]
pub struct Associations {
    pub entries: Vec<(String, String)>,
}

impl View for Associations {
    type V = Map<Seq<char>, Seq<char>>;

    open spec fn view(&self) -> Map<Seq<char>, Seq<char>> {
        entries_map(self.entries@)
    }
}

proof fn lemma_entries_map_last(entries: Seq<(String, String)>, key: Seq<char>, j: int)
    requires
        0 <= j <= entries.len(),
        forall|m: int| j <= m < entries.len() ==> (#[trigger] entries[m]).0@ != key,
    ensures
        entries_map(entries).contains_key(key) == entries_map(entries.take(j)).contains_key(key),
        entries_map(entries).contains_key(key) ==> entries_map(entries)[key] == entries_map(
            entries.take(j),
        )[key],
    decreases entries.len() - j,
{
    if j < entries.len() {
        let d = entries.drop_last();
        assert(d.take(j) =~= entries.take(j));
        lemma_entries_map_last(d, key, j);
    } else {
        assert(entries.take(j) =~= entries);
    }
}

impl Associations {
    /// Reads `associations.conf`: one `mime = app` per line, `#` comments
    /// and blank lines ignored; the last line for a MIME type wins.
    pub fn parse(content: &str) -> (r: Associations)
        ensures
            r@ == associations_of(split_char(content@, '\n')),
    {
        let text = chars_of(content);
        let lines = split_chars(&text, '\n');
        let ghost ls = split_char(content@, '\n');
        let mut entries: Vec<(String, String)> = Vec::new();
        let n = lines.len();
        for i in 0..n
            invariant
                n == lines@.len() == ls.len(),
                forall|k: int| 0 <= k < n ==> (#[trigger] lines@[k])@ == ls[k],
                entries_map(entries@) == associations_of(ls.take(i as int)),
        {
            assert(ls.take(i + 1).drop_last() =~= ls.take(i as int));
            assert(ls.take(i + 1).last() == lines@[i as int]@);
            let l = trim_chars(&lines[i]);
            if l.len() > 0 && l[0] != '#' {
                match find_char_in(&l, '=') {
                    Some(k) => {
                        let key = slice_chars(&l, 0, k);
                        let value = slice_chars(&l, k + 1, l.len());
                        let key = trim_chars(&key);
                        let value = trim_chars(&value);
                        let ghost before = entries@;
                        entries.push((string_of(&key), string_of(&value)));
                        assert(entries@.drop_last() =~= before);
                    },
                    None => {},
                }
            }
        }
        assert(ls.take(n as int) =~= ls);
        Associations { entries }
    }

    /// The application associated with MIME type `mime`, if any.
    pub fn lookup(&self, mime: &str) -> (r: Option<String>)
        ensures
            match r {
                Some(app) => self@.contains_key(mime@) && self@[mime@] == app@,
                None => !self@.contains_key(mime@),
            },
    {
        let mut j = self.entries.len();
        while j > 0
            invariant
                j <= self.entries@.len(),
                forall|m: int| j <= m < self.entries@.len() ==> (#[trigger] self.entries@[m]).0@ != mime@,
            decreases j,
        {
            if str_eq(self.entries[j - 1].0.as_str(), mime) {
                proof {
                    lemma_entries_map_last(self.entries@, mime@, j as int);
                    let t = self.entries@.take(j as int);
                    assert(t.drop_last() =~= self.entries@.take(j - 1));
                }
                return Some(self.entries[j - 1].1.clone());
            }
            j = j - 1;
        }
        proof {
            lemma_entries_map_last(self.entries@, mime@, 0);
            assert(self.entries@.take(0) =~= Seq::<(String, String)>::empty());
        }
        None
    }
}

/// Where `associations.conf` is: `purse/associations.conf` under
/// `$XDG_CONFIG_HOME`, else under `.config` in `$HOME` (empty when unset).
pub fn config_path(xdg_config_home: &Option<String>, home: &Option<String>) -> (r: String)
    ensures
        r@ == path_join(
            match *xdg_config_home {
                Some(c) => c@,
                None => path_join(
                    match *home {
                        Some(h) => h@,
                        None => Seq::empty(),
                    },
                    ".config"@,
                ),
            },
            "purse/associations.conf"@,
        ),
{
    let base = match xdg_config_home {
        Some(c) => c.clone(),
        None => match home {
            Some(h) => join_path(h.as_str(), ".config"),
            None => {
                proof {
                    reveal_strlit("");
                    assert(""@ =~= Seq::<char>::empty());
                }
                join_path("", ".config")
            },
        },
    };
    join_path(base.as_str(), "purse/associations.conf")
}

/// The editor command: `$GLUEK_UP_EDITOR_CMD`, else `lite-xl`.
pub fn editor_command(configured: &Option<String>) -> (r: String)
    ensures
        r@ == (match *configured {
            Some(c) => c@,
            None => "lite-xl"@,
        }),
{
    match configured {
        Some(c) => c.clone(),
        None => own("lite-xl"),
    }
}

/// The editor argument for a position: `path:line:col`, or `path:line`.
pub open spec fn editor_arg_spec(path: Seq<char>, line: u32, col: Option<u32>) -> Seq<char> {
    match col {
        Some(c) => path + ":"@ + dec(line as nat) + ":"@ + dec(c as nat),
        None => path + ":"@ + dec(line as nat),
    }
}

/// The argument that opens `path` at a position in the editor.
pub fn editor_arg(path: &str, line: u32, col: Option<u32>) -> (r: String)
    ensures
        r@ == editor_arg_spec(path@, line, col),
{
    let mut r = concat(path, ":");
    r.append(dec_string(line as u64).as_str());
    match col {
        Some(c) => {
            r.append(":");
            r.append(dec_string(c as u64).as_str());
        },
        None => {},
    }
    r
}

/// How one file is opened.
#[derive(Debug)]
pub enum OpenPlan {
    /// Run the editor with this argument (a position was sent).
    Editor(String),
    /// Open with a desktop handler for the file's type.
    Handler,
}

/// Decides how to open a file: at its position in the editor when a line
/// was sent with it, else with a handler for its type.
pub fn plan_open(path: &str, line: Option<u32>, col: Option<u32>) -> (r: OpenPlan)
    ensures
        match line {
            Some(l) => r matches OpenPlan::Editor(a) && a@ == editor_arg_spec(path@, l, col),
            None => r is Handler,
        },
{
    match line {
        Some(l) => OpenPlan::Editor(editor_arg(path, l, col)),
        None => OpenPlan::Handler,
    }
}

/// Whether a handler with this id may open files: any handler but Purse's
/// own invoker.
pub open spec fn usable_handler(id: Option<String>) -> bool {
    match id {
        Some(i) => i@ != self_desktop_id(),
        None => true,
    }
}

/// The first usable handler among those GIO lists for a type, by their ids.
pub fn fallback_handler(ids: &Vec<Option<String>>) -> (r: Option<usize>)
    ensures
        match r {
            Some(k) => k < ids@.len() && usable_handler(ids@[k as int]) && forall|m: int|
                0 <= m < k ==> !usable_handler(#[trigger] ids@[m]),
            None => forall|m: int| 0 <= m < ids@.len() ==> !usable_handler(#[trigger] ids@[m]),
        },
{
    let mut i: usize = 0;
    while i < ids.len()
        invariant
            i <= ids@.len(),
            forall|m: int| 0 <= m < i ==> !usable_handler(#[trigger] ids@[m]),
        decreases ids.len() - i,
    {
        let usable = match &ids[i] {
            Some(id) => !str_eq(id.as_str(), "purse-niri.desktop"),
            None => true,
        };
        if usable {
            return Some(i);
        }
        i = i + 1;
    }
    None
}

} // verus!
