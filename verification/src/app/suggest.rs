//! Completion suggestions and the command hint for the input line.
//!
//! Listing a directory is outside work: [`App::completion_dir`] names the
//! directory to list (relative to the project path, joined as
//! `Path::join` does), and [`App::update_suggestions`] takes its entries.
use crate::app::state::{word_at_cursor, word_at_cursor_defined, App};
use crate::sort::{sort_strings, sorted, sviews, vviews};
use crate::text::{
    chars_of, chars_of_string, count_leading_ws, eq_lit, push_chars, push_str, seq_eq, starts_with,
    starts_with_char, string_of, sub_vec, to_string, trim, trim_start, trimmed_chars,
    vec_starts_with,
};
use vstd::prelude::*;

verus! {

/// An entry of a listed directory: its name and whether it is a directory.
#[derive(Debug, Clone)]
pub struct DirEntryInfo {
    pub name: String,
    pub is_dir: bool,
}

/// Index of the last `'/'` in `p`, or -1.
pub open spec fn last_slash(p: Seq<char>) -> int
    decreases p.len(),
{
    if p.len() == 0 {
        -1
    } else if p.last() == '/' {
        p.len() - 1
    } else {
        last_slash(p.drop_last())
    }
}

pub proof fn lemma_last_slash(p: Seq<char>)
    ensures
        -1 <= last_slash(p) < p.len(),
    decreases p.len(),
{
    if p.len() > 0 && p.last() != '/' {
        lemma_last_slash(p.drop_last());
    }
}

/// The directory part of a partial path: up to and including its last `'/'`.
pub open spec fn dir_part(p: Seq<char>) -> Seq<char> {
    p.take(last_slash(p) + 1)
}

/// The file-name part of a partial path: after its last `'/'`.
pub open spec fn file_prefix(p: Seq<char>) -> Seq<char> {
    p.skip(last_slash(p) + 1)
}

/// The completions of the entries whose names start with `fp`: `marker`,
/// the directory part, the name, and `'/'` after a directory's name.
pub open spec fn candidates(
    marker: Seq<char>,
    dir: Seq<char>,
    fp: Seq<char>,
    listing: Seq<(Seq<char>, bool)>,
) -> Seq<Seq<char>>
    decreases listing.len(),
{
    if listing.len() == 0 {
        seq![]
    } else {
        let rest = candidates(marker, dir, fp, listing.drop_last());
        let (name, is_dir) = listing.last();
        if starts_with(name, fp) {
            rest.push(
                marker + dir + name + if is_dir {
                    "/"@
                } else {
                    seq![]
                },
            )
        } else {
            rest
        }
    }
}

/// The entries of a listing, by value.
pub open spec fn listing_view(l: Seq<DirEntryInfo>) -> Seq<(Seq<char>, bool)> {
    l.map_values(|e: DirEntryInfo| (e.name@, e.is_dir))
}

/// Number of leading `'@'` characters.
pub open spec fn leading_ats(s: Seq<char>) -> nat
    decreases s.len(),
{
    if s.len() > 0 && s[0] == '@' {
        1 + leading_ats(s.drop_first())
    } else {
        0
    }
}

/// The command word and its argument of a trimmed command line with a
/// space after the slash: the text between the slash and the first space,
/// and the rest with leading whitespace removed.
pub open spec fn command_and_arg(t: Seq<char>) -> Option<(Seq<char>, Seq<char>)> {
    let after = t.skip(1);
    let sp = crate::app::action::first_index_of(after, ' ');
    if sp < after.len() {
        Some((after.take(sp), trim_start(after.skip(sp + 1))))
    } else {
        None
    }
}

/// The argument of `/index` is completed when it is empty or starts with
/// `'/'` or `'.'`.
pub open spec fn completes_index_arg(arg: Seq<char>) -> bool {
    arg.len() == 0 || arg[0] == '/' || arg[0] == '.'
}

/// The directory to list for the suggestions, when one is needed.
pub open spec fn completion_dir_spec(app: App) -> Option<Seq<char>> {
    let t = trim(app.input@);
    if starts_with_char(t, '/') {
        match command_and_arg(t) {
            Some((cmd, arg)) => if cmd == "index"@ && completes_index_arg(arg) {
                Some(dir_part(arg))
            } else {
                None
            },
            None => None,
        }
    } else {
        match word_at_cursor(app.input@, app.cursor_pos as int) {
            Some((_, w)) => {
                let p = w.skip(leading_ats(w) as int);
                Some(dir_part(p))
            },
            None => None,
        }
    }
}

/// The hint shown after a command word and a space.
pub open spec fn arg_hint(app: App, cmd: Seq<char>) -> Seq<char> {
    if cmd == "switch"@ {
        "/switch <model>  - current: "@ + app.current_model@
    } else if cmd == "switch-embed"@ {
        "/switch-embed <model>  - current: "@ + app.current_embed_model@
    } else if cmd == "index"@ {
        "/index <path>  - directory to index"@
    } else if cmd == "models"@ {
        "/models  - list available models"@
    } else if cmd == "reindex"@ {
        "/reindex  - reindex current project"@
    } else if cmd == "save"@ {
        "/save  - save current index"@
    } else if cmd == "clear"@ {
        "/clear  - clear chat history"@
    } else if cmd == "help"@ {
        "/help  - show help"@
    } else if cmd == "quit"@ {
        "/quit  - exit"@
    } else {
        seq![]
    }
}

/// The commands offered for completion, with their descriptions.
pub open spec fn command_table() -> Seq<(Seq<char>, Seq<char>)> {
    seq![
        ("/models"@, "list available models"@),
        ("/switch"@, "change chat model"@),
        ("/switch-embed"@, "change embed model"@),
        ("/index"@, "index a directory"@),
        ("/reindex"@, "reindex current project"@),
        ("/save"@, "save current index"@),
        ("/clear"@, "clear chat history"@),
        ("/help"@, "show help"@),
        ("/quit"@, "exit"@),
    ]
}

/// The commands that extend the typed text, in table order.
pub open spec fn command_matches(t: Seq<char>, table: Seq<(Seq<char>, Seq<char>)>) -> Seq<Seq<char>>
    decreases table.len(),
{
    if table.len() == 0 {
        seq![]
    } else {
        let rest = command_matches(t, table.drop_last());
        let cmd = table.last().0;
        if starts_with(cmd, t) && cmd != t {
            rest.push(cmd)
        } else {
            rest
        }
    }
}

/// The hint for a typed command that is complete, or nothing.
pub open spec fn command_line_hint(t: Seq<char>, table: Seq<(Seq<char>, Seq<char>)>) -> Seq<char>
    decreases table.len(),
{
    if table.len() == 0 {
        seq![]
    } else if table.last().0 == t {
        table.last().0 + " - "@ + table.last().1
    } else {
        command_line_hint(t, table.drop_last())
    }
}

/// The models whose names start with `arg` (all of them for an empty
/// argument), in order.
pub open spec fn model_matches(models: Seq<Seq<char>>, arg: Seq<char>) -> Seq<Seq<char>>
    decreases models.len(),
{
    if models.len() == 0 {
        seq![]
    } else {
        let rest = model_matches(models.drop_last(), arg);
        if arg.len() == 0 || starts_with(models.last(), arg) {
            rest.push(models.last())
        } else {
            rest
        }
    }
}

/// What the suggestions become: a list, sorted when it came from a
/// directory listing, and the command hint.
pub struct SuggestOutcome {
    pub list: Seq<Seq<char>>,
    pub sorted: bool,
    pub hint: Seq<char>,
}

/// The suggestions for the input line, given the listing of the directory
/// that [`completion_dir_spec`] names (`None` when it could not be read).
pub open spec fn suggest_spec(app: App, listing: Option<Seq<(Seq<char>, bool)>>) -> SuggestOutcome {
    let t = trim(app.input@);
    let entries = match listing {
        Some(l) => l,
        None => seq![],
    };
    if starts_with_char(t, '/') {
        match command_and_arg(t) {
            Some((cmd, arg)) => {
                let hint = arg_hint(app, cmd);
                if cmd == "switch"@ || cmd == "switch-embed"@ {
                    SuggestOutcome {
                        list: model_matches(sviews(app.available_models@), arg),
                        sorted: false,
                        hint,
                    }
                } else if cmd == "index"@ && completes_index_arg(arg) {
                    SuggestOutcome {
                        list: candidates(seq![], dir_part(arg), file_prefix(arg), entries),
                        sorted: true,
                        hint,
                    }
                } else {
                    SuggestOutcome { list: seq![], sorted: false, hint }
                }
            },
            None => SuggestOutcome {
                list: command_matches(t, command_table()),
                sorted: false,
                hint: command_line_hint(t, command_table()),
            },
        }
    } else {
        match word_at_cursor(app.input@, app.cursor_pos as int) {
            Some((_, w)) => {
                let p = w.skip(leading_ats(w) as int);
                SuggestOutcome {
                    list: candidates("@"@, dir_part(p), file_prefix(p), entries),
                    sorted: true,
                    hint: seq![],
                }
            },
            None => SuggestOutcome { list: seq![], sorted: false, hint: seq![] },
        }
    }
}

/// The input line's text may be cut where suggestions need it.
pub open spec fn suggest_pre(app: App) -> bool {
    !starts_with_char(trim(app.input@), '/') ==> word_at_cursor_defined(
        app.input@,
        app.cursor_pos as int,
    )
}

/// Position of the last `'/'` of `v`, plus one (0 when there is none).
fn after_last_slash(v: &Vec<char>) -> (i: usize)
    ensures
        i == last_slash(v@) + 1,
        i <= v.len(),
{
    proof {
        lemma_last_slash(v@);
    }
    let mut i: usize = v.len();
    assert(v@.take(v.len() as int) =~= v@);
    while i > 0 && v[i - 1] != '/'
        invariant
            i <= v.len(),
            last_slash(v@) == last_slash(v@.take(i as int)),
        decreases i,
    {
        assert(v@.take(i as int).drop_last() =~= v@.take(i - 1));
        i -= 1;
    }
    i
}

/// The text after the leading `'@'` characters of `v`.
pub(crate) fn skip_ats(v: &Vec<char>) -> (r: Vec<char>)
    ensures
        r@ == v@.skip(leading_ats(v@) as int),
{
    let mut i: usize = 0;
    assert(v@.skip(0) =~= v@);
    while i < v.len() && v[i] == '@'
        invariant
            i <= v.len(),
            leading_ats(v@) == i + leading_ats(v@.skip(i as int)),
        decreases v.len() - i,
    {
        assert(v@.skip(i as int).drop_first() =~= v@.skip(i + 1));
        i += 1;
    }
    sub_vec(v, i, v.len())
}

/// Splits a trimmed command line after its slash at the first space.
fn split_command(t: &Vec<char>) -> (r: Option<(Vec<char>, Vec<char>)>)
    requires
        t@.len() > 0,
    ensures
        match r {
            Some((c, a)) => command_and_arg(t@) == Some((c@, a@)),
            None => command_and_arg(t@) is None,
        },
{
    let after = sub_vec(t, 1, t.len());
    assert(after@ =~= t@.skip(1));
    let sp = crate::app::action::find_char(&after, ' ');
    if sp < after.len() {
        let cmd = sub_vec(&after, 0, sp);
        let arg = trim_start_from(&after, sp + 1);
        assert(cmd@ =~= after@.take(sp as int));
        Some((cmd, arg))
    } else {
        None
    }
}

/// The characters of `trim_start(v[lo..])`.
fn trim_start_from(v: &Vec<char>, lo: usize) -> (r: Vec<char>)
    requires
        lo <= v.len(),
    ensures
        r@ == trim_start(v@.skip(lo as int)),
{
    let n = count_leading_ws(v, lo);
    let r = sub_vec(v, lo + n, v.len());
    assert(r@ =~= v@.skip(lo as int).skip(n as int));
    r
}

impl App {
    /// The directory whose entries [`App::update_suggestions`] needs, as a
    /// path relative to the project directory; `None` when no listing is
    /// needed.
    pub fn completion_dir(&self) -> (r: Option<String>)
        requires
            suggest_pre(*self),
        ensures
            match r {
                Some(d) => completion_dir_spec(*self) == Some(d@),
                None => completion_dir_spec(*self) is None,
            },
    {
        let t = trimmed_chars(self.input.as_str());
        if t.len() > 0 && t[0] == '/' {
            match split_command(&t) {
                Some((cmd, arg)) => {
                    if eq_lit(&cmd, "index") && (arg.len() == 0 || arg[0] == '/' || arg[0] == '.') {
                        let e = after_last_slash(&arg);
                        Some(string_of(&sub_vec(&arg, 0, e)))
                    } else {
                        None
                    }
                },
                None => None,
            }
        } else {
            match self.get_word_at_cursor() {
                Some((_, w)) => {
                    let wv = chars_of_string(&w);
                    let p = skip_ats(&wv);
                    let e = after_last_slash(&p);
                    Some(string_of(&sub_vec(&p, 0, e)))
                },
                None => None,
            }
        }
    }

    /// Recomputes the suggestions, the selected suggestion and the command
    /// hint for the input line; `listing` holds the entries of the directory
    /// that [`App::completion_dir`] named, or `None` when it could not be
    /// read or none was needed.
    pub fn update_suggestions(&mut self, listing: Option<Vec<DirEntryInfo>>)
        requires
            suggest_pre(*old(self)),
        ensures
            ({
                let out = suggest_spec(
                    *old(self),
                    match listing {
                        Some(l) => Some(listing_view(l@)),
                        None => None,
                    },
                );
                &&& *final(self) == (App {
                    suggestions: final(self).suggestions,
                    suggestion_index: 0,
                    command_hint: final(self).command_hint,
                    show_suggestions: final(self).suggestions@.len() > 0,
                    ..*old(self)
                })
                &&& final(self).command_hint@ == out.hint
                &&& out.sorted ==> sorted(sviews(final(self).suggestions@)) && sviews(
                    final(self).suggestions@,
                ).to_multiset() == out.list.to_multiset()
                &&& !out.sorted ==> sviews(final(self).suggestions@) == out.list
            }),
    {
        let ghost lv: Option<Seq<(Seq<char>, bool)>> = match &listing {
            Some(l) => Some(listing_view(l@)),
            None => None,
        };
        let entries: Vec<DirEntryInfo> = match listing {
            Some(l) => l,
            None => Vec::new(),
        };
        assert(listing_view(entries@) =~= match lv {
            Some(l) => l,
            None => Seq::<(Seq<char>, bool)>::empty(),
        });
        let (list, hint) = self.suggestions_for(&entries);
        self.suggestions = list;
        self.command_hint = hint;
        self.suggestion_index = 0;
        self.show_suggestions = self.suggestions.len() > 0;
    }

    /// The suggestions and the hint for the input line.
    fn suggestions_for(&self, entries: &Vec<DirEntryInfo>) -> (r: (Vec<String>, String))
        requires
            suggest_pre(*self),
        ensures
            ({
                let out = suggest_spec(*self, Some(listing_view(entries@)));
                &&& r.1@ == out.hint
                &&& out.sorted ==> sorted(sviews(r.0@)) && sviews(r.0@).to_multiset()
                    == out.list.to_multiset()
                &&& !out.sorted ==> sviews(r.0@) == out.list
            }),
    {
        let t = trimmed_chars(self.input.as_str());
        if t.len() > 0 && t[0] == '/' {
            match split_command(&t) {
                Some((cmd, arg)) => {
                    let hint = self.hint_for(&cmd);
                    if eq_lit(&cmd, "switch") || eq_lit(&cmd, "switch-embed") {
                        (model_suggestions(&self.available_models, &arg), hint)
                    } else if eq_lit(&cmd, "index") && (arg.len() == 0 || arg[0] == '/' || arg[0]
                        == '.') {
                        let marker: Vec<char> = Vec::new();
                        (path_suggestions(&marker, &arg, entries), hint)
                    } else {
                        let v: Vec<String> = Vec::new();
                        assert(sviews(v@) =~= Seq::<Seq<char>>::empty());
                        (v, hint)
                    }
                },
                None => command_suggestions(&t),
            }
        } else {
            match self.get_word_at_cursor() {
                Some((_, w)) => {
                    let wv = chars_of_string(&w);
                    let p = skip_ats(&wv);
                    let mut marker: Vec<char> = Vec::new();
                    marker.push('@');
                    assert(marker@ =~= "@"@) by {
                        reveal_strlit("@");
                    }
                    (path_suggestions(&marker, &p, entries), String::new())
                },
                None => {
                    let v: Vec<String> = Vec::new();
                    assert(sviews(v@) =~= Seq::<Seq<char>>::empty());
                    (v, String::new())
                },
            }
        }
    }

    /// The hint for a command word followed by a space.
    fn hint_for(&self, cmd: &Vec<char>) -> (h: String)
        ensures
            h@ == arg_hint(*self, cmd@),
    {
        if eq_lit(cmd, "switch") {
            let mut h = to_string("/switch <model>  - current: ");
            push_str(&mut h, self.current_model.as_str());
            h
        } else if eq_lit(cmd, "switch-embed") {
            let mut h = to_string("/switch-embed <model>  - current: ");
            push_str(&mut h, self.current_embed_model.as_str());
            h
        } else if eq_lit(cmd, "index") {
            to_string("/index <path>  - directory to index")
        } else if eq_lit(cmd, "models") {
            to_string("/models  - list available models")
        } else if eq_lit(cmd, "reindex") {
            to_string("/reindex  - reindex current project")
        } else if eq_lit(cmd, "save") {
            to_string("/save  - save current index")
        } else if eq_lit(cmd, "clear") {
            to_string("/clear  - clear chat history")
        } else if eq_lit(cmd, "help") {
            to_string("/help  - show help")
        } else if eq_lit(cmd, "quit") {
            to_string("/quit  - exit")
        } else {
            String::new()
        }
    }
}

/// The sorted completions of a partial path from a directory listing.
fn path_suggestions(marker: &Vec<char>, partial: &Vec<char>, entries: &Vec<DirEntryInfo>) -> (r:
    Vec<String>)
    ensures
        sorted(sviews(r@)),
        sviews(r@).to_multiset() == candidates(
            marker@,
            dir_part(partial@),
            file_prefix(partial@),
            listing_view(entries@),
        ).to_multiset(),
{
    let e = after_last_slash(partial);
    let dir = sub_vec(partial, 0, e);
    let fp = sub_vec(partial, e, partial.len());
    assert(dir@ =~= dir_part(partial@));
    assert(fp@ =~= file_prefix(partial@));
    let c = entry_candidates(marker, &dir, &fp, entries);
    sort_strings(&c)
}

/// The models that the argument selects.
fn model_suggestions(models: &Vec<String>, arg: &Vec<char>) -> (r: Vec<String>)
    ensures
        sviews(r@) == model_matches(sviews(models@), arg@),
{
    let mut r: Vec<String> = Vec::new();
    let mut i: usize = 0;
    assert(sviews(models@).take(0) =~= Seq::<Seq<char>>::empty());
    while i < models.len()
        invariant
            i <= models@.len(),
            sviews(r@) == model_matches(sviews(models@).take(i as int), arg@),
        decreases models@.len() - i,
    {
        let ghost prev = sviews(models@).take(i as int);
        assert(sviews(models@).take(i + 1).drop_last() =~= prev);
        assert(sviews(models@).take(i + 1).last() == models@[i as int]@);
        let m = chars_of_string(&models[i]);
        if arg.len() == 0 || vec_starts_with(&m, arg) {
            let s = models[i].clone();
            let ghost before = r@;
            r.push(s);
            assert(sviews(r@) =~= sviews(before).push(models@[i as int]@));
        }
        i += 1;
    }
    assert(sviews(models@).take(models@.len() as int) =~= sviews(models@));
    r
}

/// The commands that extend `t`, and the hint for `t` when it is complete.
fn command_suggestions(t: &Vec<char>) -> (r: (Vec<String>, String))
    ensures
        sviews(r.0@) == command_matches(t@, command_table()),
        r.1@ == command_line_hint(t@, command_table()),
{
    let mut list: Vec<String> = Vec::new();
    let mut hint = String::new();
    assert(sviews(list@) =~= command_matches(t@, command_table().take(0)));
    add_command(&mut list, &mut hint, t, "/models", "list available models", 0);
    add_command(&mut list, &mut hint, t, "/switch", "change chat model", 1);
    add_command(&mut list, &mut hint, t, "/switch-embed", "change embed model", 2);
    add_command(&mut list, &mut hint, t, "/index", "index a directory", 3);
    add_command(&mut list, &mut hint, t, "/reindex", "reindex current project", 4);
    add_command(&mut list, &mut hint, t, "/save", "save current index", 5);
    add_command(&mut list, &mut hint, t, "/clear", "clear chat history", 6);
    add_command(&mut list, &mut hint, t, "/help", "show help", 7);
    add_command(&mut list, &mut hint, t, "/quit", "exit", 8);
    assert(command_table().take(9) =~= command_table());
    (list, hint)
}

/// The hint that the table's first `k` rows give for `t`, or the empty text.
spec fn hint_upto(t: Seq<char>, k: int) -> Seq<char> {
    command_line_hint(t, command_table().take(k))
}

fn add_command(
    list: &mut Vec<String>,
    hint: &mut String,
    t: &Vec<char>,
    cmd: &str,
    desc: &str,
    k: usize,
)
    requires
        k < 9,
        command_table()[k as int] == (cmd@, desc@),
        sviews(old(list)@) == command_matches(t@, command_table().take(k as int)),
        old(hint)@ == hint_upto(t@, k as int),
    ensures
        sviews(final(list)@) == command_matches(t@, command_table().take(k + 1)),
        final(hint)@ == hint_upto(t@, k + 1),
{
    let c = chars_of(cmd);
    assert(command_table().take(k + 1).drop_last() =~= command_table().take(k as int));
    assert(command_table().take(k + 1).last() == (cmd@, desc@));
    let same = seq_eq(&c, t);
    if vec_starts_with(&c, t) && !same {
        let ghost before = list@;
        list.push(to_string(cmd));
        assert(sviews(list@) =~= sviews(before).push(cmd@));
    }
    if same {
        let mut h = to_string(cmd);
        push_str(&mut h, " - ");
        push_str(&mut h, desc);
        *hint = h;
    }
}

/// The completions of the listed entries whose names start with `fp`.
fn entry_candidates(
    marker: &Vec<char>,
    dir: &Vec<char>,
    fp: &Vec<char>,
    entries: &Vec<DirEntryInfo>,
) -> (r: Vec<Vec<char>>)
    ensures
        vviews(r@) == candidates(marker@, dir@, fp@, listing_view(entries@)),
{
    let mut r: Vec<Vec<char>> = Vec::new();
    let mut i: usize = 0;
    assert(listing_view(entries@).take(0) =~= Seq::<(Seq<char>, bool)>::empty());
    assert(vviews(r@) =~= Seq::<Seq<char>>::empty());
    while i < entries.len()
        invariant
            i <= entries@.len(),
            vviews(r@) == candidates(marker@, dir@, fp@, listing_view(entries@).take(i as int)),
        decreases entries@.len() - i,
    {
        let ghost prev = listing_view(entries@).take(i as int);
        assert(listing_view(entries@).take(i + 1).drop_last() =~= prev);
        assert(listing_view(entries@).take(i + 1).last() == (
            entries@[i as int].name@,
            entries@[i as int].is_dir,
        ));
        let name = chars_of_string(&entries[i].name);
        if vec_starts_with(&name, fp) {
            let mut c: Vec<char> = Vec::new();
            let mut s = String::new();
            push_chars(&mut s, marker);
            push_chars(&mut s, dir);
            push_chars(&mut s, &name);
            if entries[i].is_dir {
                push_str(&mut s, "/");
            } else {
                assert(s@ =~= marker@ + dir@ + name@ + Seq::<char>::empty());
            }
            c = chars_of_string(&s);
            let ghost before = r@;
            r.push(c);
            assert(vviews(r@) =~= vviews(before).push(c@));
        }
        i += 1;
    }
    assert(listing_view(entries@).take(entries@.len() as int) =~= listing_view(entries@));
    r
}

} // verus!
