//! The application state and its input-line editing operations.
//!
//! `cursor_pos` is a byte offset into `input`, as `String::insert` and
//! `String::remove` take it. Operations that would cut a character in two
//! (and so panic) are excluded by their preconditions.
use crate::db::store::CodeChunk;
use crate::text::{
    byte_len_of, char_index, char_width, chars_of_string, find_char_index, is_boundary, is_ws,
    is_whitespace, lemma_utf8_len_take_mono, len_utf8, splice, starts_with_char, string_of,
    string_of_range, to_string, utf8_len,
};
use vstd::prelude::*;

verus! {

/// Who wrote a chat message.
#[derive(Debug, Clone, Copy, PartialEq, Eq, Structural)]
pub enum MessageSource {
    User,
    Assistant,
    System,
}

/// A chat message.
#[derive(Debug, Clone)]
pub struct Message {
    pub source: MessageSource,
    pub content: String,
}

impl Message {
    pub fn user(content: String) -> (m: Message)
        ensures
            m.source == MessageSource::User,
            m.content == content,
    {
        Message { source: MessageSource::User, content }
    }

    pub fn assistant(content: String) -> (m: Message)
        ensures
            m.source == MessageSource::Assistant,
            m.content == content,
    {
        Message { source: MessageSource::Assistant, content }
    }

    pub fn system(content: String) -> (m: Message)
        ensures
            m.source == MessageSource::System,
            m.content == content,
    {
        Message { source: MessageSource::System, content }
    }
}

/// Progress of an indexing run.
#[derive(Debug, Clone)]
pub struct IndexingProgress {
    pub files_done: usize,
    pub files_total: usize,
    pub chunks_done: usize,
    pub current_file: String,
}

impl Default for IndexingProgress {
    fn default() -> (p: IndexingProgress)
        ensures
            p.files_done == 0,
            p.files_total == 0,
            p.chunks_done == 0,
            p.current_file@ == Seq::<char>::empty(),
    {
        IndexingProgress { files_done: 0, files_total: 0, chunks_done: 0, current_file: String::new() }
    }
}

/// State of the indexer.
#[derive(Debug, Clone)]
pub enum IndexingStatus {
    Idle,
    InProgress { current: usize, total: usize, file: String },
    Complete { files: usize, chunks: usize },
    Error(String),
}

impl Default for IndexingStatus {
    fn default() -> (s: IndexingStatus)
        ensures
            s is Idle,
    {
        IndexingStatus::Idle
    }
}

/// A file or directory named with `@path` in a question, with the text read
/// from it when it could be read.
#[derive(Debug, Clone)]
pub struct FileReference {
    pub path: String,
    pub content: Option<String>,
}

/// A mouse selection in the input line.
#[derive(Debug, Clone)]
pub struct MouseSelection {
    pub start_row: u16,
    pub start_col: u16,
    pub end_row: u16,
    pub end_col: u16,
}

impl Default for MouseSelection {
    fn default() -> (m: MouseSelection)
        ensures
            m.start_row == 0 && m.start_col == 0 && m.end_row == 0 && m.end_col == 0,
    {
        MouseSelection { start_row: 0, start_col: 0, end_row: 0, end_col: 0 }
    }
}

/// The whole state of the chat application.
#[derive(Debug, Clone)]
pub struct App {
    pub running: bool,
    pub input: String,
    pub cursor_pos: usize,
    pub messages: Vec<Message>,
    pub context_chunks: Vec<CodeChunk>,
    pub chat_scroll: usize,
    pub context_scroll: usize,
    pub is_loading: bool,
    pub streaming_message: Option<String>,
    pub status: String,
    pub indexing_progress: Option<IndexingProgress>,
    pub indexing_status: IndexingStatus,
    pub current_model: String,
    pub current_embed_model: String,
    pub available_models: Vec<String>,
    pub file_references: Vec<FileReference>,
    pub suggestions: Vec<String>,
    pub suggestion_index: usize,
    pub show_suggestions: bool,
    pub command_hint: String,
    pub mouse_selection: Option<MouseSelection>,
    pub mouse_dragging: bool,
    pub thinking_dots: usize,
    pub follow_bottom: bool,
    pub max_scroll: usize,
    pub benchmark_mode: bool,
    pub last_retrieved_context: Vec<CodeChunk>,
    pub syntax_highlight: bool,
    pub theme: String,
    pub debug_mode: bool,
    pub available_profiles: Vec<String>,
    pub current_profile: Option<String>,
}

/// Index of the last whitespace character of `s` before character index `k`,
/// or -1 when there is none.
pub open spec fn last_ws_before(s: Seq<char>, k: int) -> int
    decreases k,
{
    if k <= 0 {
        -1
    } else if is_ws(s[k - 1]) {
        k - 1
    } else {
        last_ws_before(s, k - 1)
    }
}

pub proof fn lemma_last_ws_before(s: Seq<char>, k: int)
    requires
        0 <= k <= s.len(),
    ensures
        -1 <= last_ws_before(s, k) < k,
        last_ws_before(s, k) >= 0 ==> is_ws(s[last_ws_before(s, k)]),
        forall|j: int| last_ws_before(s, k) < j < k ==> !is_ws(#[trigger] s[j]),
    decreases k,
{
    if k > 0 && !is_ws(s[k - 1]) {
        lemma_last_ws_before(s, k - 1);
    }
}

/// The word under the cursor can be cut out of the input without cutting a
/// character in two: the cursor is on a character boundary and the
/// whitespace character before the word is one byte long.
pub open spec fn word_at_cursor_defined(input: Seq<char>, cursor: int) -> bool {
    input.len() == 0 || cursor == 0 || {
        &&& is_boundary(input, cursor)
        &&& last_ws_before(input, char_index(input, cursor)) >= 0 ==> char_width(
            input[last_ws_before(input, char_index(input, cursor))],
        ) == 1
    }
}

/// Character index at which the word ending at the cursor starts.
pub open spec fn word_start(input: Seq<char>, cursor: int) -> int {
    last_ws_before(input, char_index(input, cursor)) + 1
}

/// The `@word` ending at the cursor, with its byte offset.
pub open spec fn word_at_cursor(input: Seq<char>, cursor: int) -> Option<(int, Seq<char>)> {
    if input.len() == 0 || cursor == 0 {
        None
    } else {
        let ws = word_start(input, cursor);
        let word = input.subrange(ws, char_index(input, cursor));
        if starts_with_char(word, '@') {
            Some((utf8_len(input.take(ws)) as int, word))
        } else {
            None
        }
    }
}

/// The byte length of the input fits in a `usize`.
pub open spec fn input_fits(app: App) -> bool {
    utf8_len(app.input@) <= usize::MAX
}

/// The state of a new session: running, with an empty input and no
/// messages, the default models and theme, following the bottom of the chat.
pub open spec fn fresh_app(app: App) -> bool {
    &&& app.running
    &&& app.input@ == Seq::<char>::empty()
    &&& app.cursor_pos == 0
    &&& app.messages@ == Seq::<Message>::empty()
    &&& app.context_chunks@ == Seq::<CodeChunk>::empty()
    &&& app.chat_scroll == 0
    &&& app.context_scroll == 0
    &&& !app.is_loading
    &&& app.streaming_message is None
    &&& app.status@ == Seq::<char>::empty()
    &&& app.indexing_progress is None
    &&& app.indexing_status is Idle
    &&& app.current_model@ == "llama3"@
    &&& app.current_embed_model@ == "nomic-embed-text"@
    &&& app.available_models@ == Seq::<String>::empty()
    &&& app.file_references@ == Seq::<FileReference>::empty()
    &&& app.suggestions@ == Seq::<String>::empty()
    &&& app.suggestion_index == 0
    &&& !app.show_suggestions
    &&& app.command_hint@ == Seq::<char>::empty()
    &&& app.mouse_selection is None
    &&& !app.mouse_dragging
    &&& app.thinking_dots == 0
    &&& app.follow_bottom
    &&& app.max_scroll == 0
    &&& !app.benchmark_mode
    &&& app.last_retrieved_context@ == Seq::<CodeChunk>::empty()
    &&& app.syntax_highlight
    &&& app.theme@ == "base16-eighties.dark"@
    &&& !app.debug_mode
    &&& app.available_profiles@ == Seq::<String>::empty()
    &&& app.current_profile is None
}

impl Default for App {
    fn default() -> (app: App)
        ensures
            fresh_app(app),
    {
        App::new()
    }
}

/// `c` can be inserted at the cursor: the cursor is at a character boundary
/// and the longer input still fits.
#[verifier::inline]
pub open spec fn can_insert(app: App, c: char) -> bool {
    is_boundary(app.input@, app.cursor_pos as int) && utf8_len(app.input@) + char_width(c)
        <= usize::MAX
}

/// `post` is `pre` with `c` inserted at the cursor and the cursor moved
/// past it.
#[verifier::inline]
pub open spec fn inserted(pre: App, post: App, c: char) -> bool {
    let k = char_index(pre.input@, pre.cursor_pos as int);
    &&& post == (App {
        input: post.input,
        cursor_pos: (pre.cursor_pos + char_width(c)) as usize,
        ..pre
    })
    &&& post.input@ == pre.input@.take(k).push(c) + pre.input@.skip(k)
}

/// Backspace can be applied: at the start of the input, or where the
/// character before the cursor ends at the cursor.
#[verifier::inline]
pub open spec fn can_backspace(app: App) -> bool {
    app.cursor_pos > 0 ==> is_boundary(app.input@, app.cursor_pos - 1) && app.cursor_pos - 1
        < utf8_len(app.input@)
}

/// `post` is `pre` after Backspace: unchanged at the start of the input,
/// else the character before the cursor removed and the cursor one back.
#[verifier::inline]
pub open spec fn backspaced(pre: App, post: App) -> bool {
    if pre.cursor_pos > 0 {
        &&& post == (App { input: post.input, cursor_pos: (pre.cursor_pos - 1) as usize, ..pre })
        &&& post.input@ == pre.input@.remove(char_index(pre.input@, pre.cursor_pos - 1))
    } else {
        post == pre
    }
}

impl App {
    pub fn new() -> (app: App)
        ensures
            fresh_app(app),
    {
        App {
            running: true,
            input: String::new(),
            cursor_pos: 0,
            messages: Vec::new(),
            context_chunks: Vec::new(),
            chat_scroll: 0,
            context_scroll: 0,
            is_loading: false,
            streaming_message: None,
            status: String::new(),
            indexing_progress: None,
            indexing_status: IndexingStatus::Idle,
            current_model: to_string("llama3"),
            current_embed_model: to_string("nomic-embed-text"),
            available_models: Vec::new(),
            file_references: Vec::new(),
            suggestions: Vec::new(),
            suggestion_index: 0,
            show_suggestions: false,
            command_hint: String::new(),
            mouse_selection: None,
            mouse_dragging: false,
            thinking_dots: 0,
            follow_bottom: true,
            max_scroll: 0,
            benchmark_mode: false,
            last_retrieved_context: Vec::new(),
            syntax_highlight: true,
            theme: to_string("base16-eighties.dark"),
            debug_mode: false,
            available_profiles: Vec::new(),
            current_profile: None,
        }
    }

    pub fn with_status(self, status: String) -> (app: App)
        ensures
            app == (App { status, ..self }),
    {
        let mut s = self;
        s.status = status;
        s
    }

    pub fn with_syntax_highlight(self, enabled: bool) -> (app: App)
        ensures
            app == (App { syntax_highlight: enabled, ..self }),
    {
        let mut s = self;
        s.syntax_highlight = enabled;
        s
    }

    pub fn with_theme(self, theme: String) -> (app: App)
        ensures
            app == (App { theme, ..self }),
    {
        let mut s = self;
        s.theme = theme;
        s
    }

    pub fn with_benchmark(self, enabled: bool) -> (app: App)
        ensures
            app == (App { benchmark_mode: enabled, ..self }),
    {
        let mut s = self;
        s.benchmark_mode = enabled;
        s
    }

    pub fn with_debug(self, enabled: bool) -> (app: App)
        ensures
            app == (App { debug_mode: enabled, ..self }),
    {
        let mut s = self;
        s.debug_mode = enabled;
        s
    }

    /// The byte length of the input, `input.len()`.
    pub fn input_len(&self) -> (n: usize)
        requires
            input_fits(*self),
        ensures
            n == utf8_len(self.input@),
    {
        let v = chars_of_string(&self.input);
        byte_len_of(&v)
    }

    /// The `@word` that ends at the cursor, with the byte offset at which it
    /// starts; `None` when the word under the cursor does not start with `@`.
    pub fn get_word_at_cursor(&self) -> (r: Option<(usize, String)>)
        requires
            word_at_cursor_defined(self.input@, self.cursor_pos as int),
        ensures
            match r {
                Some((start, word)) => word_at_cursor(self.input@, self.cursor_pos as int)
                    == Some((start as int, word@)),
                None => word_at_cursor(self.input@, self.cursor_pos as int) is None,
            },
    {
        let v = chars_of_string(&self.input);
        if v.len() == 0 || self.cursor_pos == 0 {
            return None;
        }
        let k = match find_char_index(&v, self.cursor_pos) {
            Some(k) => k,
            None => {
                return None;
            },
        };
        let mut j: usize = k;
        while j > 0 && !is_whitespace(v[j - 1])
            invariant
                j <= k <= v.len(),
                last_ws_before(v@, k as int) == last_ws_before(v@, j as int),
            decreases j,
        {
            j -= 1;
        }
        // j is the first character of the word
        assert(j as int == last_ws_before(v@, k as int) + 1);
        if j < k && v[j] == '@' {
            let start = if j == 0 {
                0
            } else {
                proof {
                    lemma_utf8_len_take_mono(v@, j as int, k as int);
                }
                let p = sub_prefix_len(&v, j);
                p
            };
            let word = string_of_range(&v, j, k);
            Some((start, word))
        } else {
            None
        }
    }

    pub fn move_cursor_left(&mut self)
        ensures
            *final(self) == (App {
                cursor_pos: if old(self).cursor_pos > 0 {
                    (old(self).cursor_pos - 1) as usize
                } else {
                    old(self).cursor_pos
                },
                ..*old(self)
            }),
    {
        if self.cursor_pos > 0 {
            self.cursor_pos -= 1;
        }
    }

    pub fn move_cursor_right(&mut self)
        requires
            input_fits(*old(self)),
        ensures
            *final(self) == (App {
                cursor_pos: if old(self).cursor_pos < utf8_len(old(self).input@) {
                    (old(self).cursor_pos + 1) as usize
                } else {
                    old(self).cursor_pos
                },
                ..*old(self)
            }),
    {
        let n = self.input_len();
        if self.cursor_pos < n {
            self.cursor_pos += 1;
        }
    }

    pub fn move_cursor_to(&mut self, pos: usize)
        requires
            input_fits(*old(self)),
        ensures
            *final(self) == (App {
                cursor_pos: if pos < utf8_len(old(self).input@) {
                    pos
                } else {
                    utf8_len(old(self).input@) as usize
                },
                ..*old(self)
            }),
    {
        let n = self.input_len();
        self.cursor_pos = if pos < n {
            pos
        } else {
            n
        };
    }

    /// Inserts `c` at the cursor and moves the cursor past it.
    pub fn insert_char(&mut self, c: char)
        requires
            can_insert(*old(self), c),
        ensures
            inserted(*old(self), *final(self), c),
    {
        let v = chars_of_string(&self.input);
        let k = find_char_index(&v, self.cursor_pos).unwrap();
        let mut ins: Vec<char> = Vec::new();
        ins.push(c);
        let nv = splice(&v, k, k, &ins);
        proof {
            lemma_utf8_len_take_mono(v@, k as int, v@.len() as int);
            assert(v@.take(v@.len() as int) =~= v@);
            assert(v@.take(k as int) + ins@ == v@.take(k as int).push(c));
        }
        self.input = string_of(&nv);
        self.cursor_pos = self.cursor_pos + len_utf8(c);
    }

    /// Backspace: removes the character before the cursor.
    pub fn delete_char_before_cursor(&mut self)
        requires
            can_backspace(*old(self)),
        ensures
            backspaced(*old(self), *final(self)),
    {
        if self.cursor_pos > 0 {
            self.cursor_pos -= 1;
            self.remove_char_at(self.cursor_pos);
        }
    }

    /// Delete: removes the character at the cursor.
    pub fn delete_char_at_cursor(&mut self)
        requires
            input_fits(*old(self)),
            old(self).cursor_pos < utf8_len(old(self).input@) ==> is_boundary(
                old(self).input@,
                old(self).cursor_pos as int,
            ),
        ensures
            old(self).cursor_pos >= utf8_len(old(self).input@) ==> *final(self) == *old(self),
            old(self).cursor_pos < utf8_len(old(self).input@) ==> ({
                let k = char_index(old(self).input@, old(self).cursor_pos as int);
                *final(self) == (App { input: final(self).input, ..*old(self) })
                    && final(self).input@ == old(self).input@.remove(k)
            }),
    {
        let n = self.input_len();
        if self.cursor_pos < n {
            self.remove_char_at(self.cursor_pos);
        }
    }

    /// `String::remove` at byte offset `b`.
    fn remove_char_at(&mut self, b: usize)
        requires
            is_boundary(old(self).input@, b as int),
            b < utf8_len(old(self).input@),
        ensures
            *final(self) == (App { input: final(self).input, ..*old(self) }),
            final(self).input@ == old(self).input@.remove(char_index(old(self).input@, b as int)),
    {
        let v = chars_of_string(&self.input);
        let k = find_char_index(&v, b).unwrap();
        if k == v.len() {
            assert(v@.take(v@.len() as int) =~= v@);
            assert(false);
        }
        let ins: Vec<char> = Vec::new();
        let nv = splice(&v, k, k + 1, &ins);
        assert(nv@ =~= v@.remove(k as int));
        self.input = string_of(&nv);
    }
}

/// Byte length of `v[..j]`.
pub(crate) fn sub_prefix_len(v: &Vec<char>, j: usize) -> (n: usize)
    requires
        j <= v.len(),
        utf8_len(v@.take(j as int)) <= usize::MAX,
    ensures
        n == utf8_len(v@.take(j as int)),
{
    let p = crate::text::sub_vec(v, 0, j);
    assert(v@.subrange(0, j as int) =~= v@.take(j as int));
    byte_len_of(&p)
}

} // verus!
