//! How the replies of the model server become answers: a whole reply, and
//! the lines of a streamed one.
use crate::client::types::{ChatRequest, ChatResponse, ChatStreamResponse, EmbedRequest};
use crate::text::{lines, push_str, split_lines, string_of, to_string, trim, trim_vec};
use crate::dev::debug::utf8_text;
use vstd::prelude::*;
use vstd::utf8::{decode_utf8, valid_utf8};

verus! {

/// A model offered by the server.
#[derive(Debug, Clone)]
pub struct ModelInfo {
    pub name: String,
    pub size: u64,
}

/// The request for an embedding of `text` with `model`.
pub fn embed_request(model: &str, text: &str) -> (r: EmbedRequest)
    ensures
        r.model@ == model@,
        r.prompt@ == text@,
{
    EmbedRequest { model: to_string(model), prompt: to_string(text) }
}

/// The request for an answer to `prompt` with `model`.
pub fn chat_request(model: &str, prompt: &str, stream: bool) -> (r: ChatRequest)
    ensures
        r.model@ == model@,
        r.prompt@ == prompt@,
        r.stream == stream,
{
    ChatRequest { model: to_string(model), prompt: to_string(prompt), stream }
}

/// The URL of an endpoint of the server.
pub fn endpoint(base_url: &str, path: &str) -> (r: String)
    ensures
        r@ == base_url@ + path@,
{
    let mut r = to_string(base_url);
    push_str(&mut r, path);
    r
}

/// A whole reply is the answer, unless the server reported an error.
pub fn answer_of(reply: ChatResponse) -> (r: Result<String, String>)
    ensures
        match reply.error {
            Some(e) => r == Err::<String, String>(e),
            None => r == Ok::<String, String>(reply.response),
        },
{
    match reply.error {
        Some(e) => Err(e),
        None => Ok(reply.response),
    }
}

/// The lines of a received chunk of a stream that are not blank: none when
/// the chunk is not UTF-8.
pub open spec fn stream_lines_spec(bytes: Seq<u8>) -> Seq<Seq<char>> {
    if valid_utf8(bytes) {
        lines(decode_utf8(bytes)).filter(|l: Seq<char>| trim(l).len() > 0)
    } else {
        seq![]
    }
}

/// The lines of a received chunk of a stream that are not blank, each to be
/// read as a JSON reply.
pub fn stream_lines(bytes: &[u8]) -> (r: Vec<String>)
    ensures
        r@.map_values(|s: String| s@) == stream_lines_spec(bytes@),
{
    let mut r: Vec<String> = Vec::new();
    match utf8_text(bytes) {
        None => {
            assert(r@.map_values(|s: String| s@) =~= Seq::<Seq<char>>::empty());
            r
        },
        Some(text) => {
            let ls = split_lines(text.as_str());
            let ghost lv = lines(text@);
            let ghost pred = |l: Seq<char>| trim(l).len() > 0;
            let mut i: usize = 0;
            assert(lv.take(0).filter(pred) =~= Seq::<Seq<char>>::empty()) by {
                reveal(Seq::filter);
            }
            assert(r@.map_values(|s: String| s@) =~= Seq::<Seq<char>>::empty());
            while i < ls.len()
                invariant
                    i <= ls@.len(),
                    ls@.len() == lv.len(),
                    lv == lines(text@),
                    pred == (|l: Seq<char>| trim(l).len() > 0),
                    forall|k: int| 0 <= k < ls@.len() ==> (#[trigger] ls@[k])@ == lv[k],
                    r@.map_values(|s: String| s@) == lv.take(i as int).filter(pred),
                decreases ls@.len() - i,
            {
                proof {
                    reveal(Seq::filter);
                    assert(lv.take(i + 1).drop_last() =~= lv.take(i as int));
                }
                let t = trim_vec(&ls[i]);
                if t.len() > 0 {
                    let ghost before = r@;
                    let s = string_of(&ls[i]);
                    r.push(s);
                    assert(r@.map_values(|s: String| s@) =~= before.map_values(|s: String| s@).push(
                        ls@[i as int]@,
                    ));
                }
                i += 1;
            }
            assert(lv.take(ls@.len() as int) =~= lv);
            r
        },
    }
}

/// What the stream has produced so far.
pub struct StreamOutcome {
    /// The text of each reply that carried some, in order, to be shown as
    /// it arrives.
    pub emitted: Vec<String>,
    /// The error a reply reported, which ends the stream.
    pub error: Option<String>,
}

/// Processes the replies read from the lines of one chunk (`None` for a
/// line that is not a reply): their text is appended to `full` and emitted,
/// up to a reply marked done or one that reports an error.
pub open spec fn stream_fold(replies: Seq<Option<ChatStreamResponse>>) -> (Seq<Seq<char>>, Option<
    Seq<char>,
>)
    decreases replies.len(),
{
    if replies.len() == 0 {
        (seq![], None)
    } else {
        match replies[0] {
            None => stream_fold(replies.drop_first()),
            Some(r) => match r.error {
                Some(e) => (seq![], Some(e@)),
                None => {
                    let head: Seq<Seq<char>> = if r.response@.len() > 0 {
                        seq![r.response@]
                    } else {
                        seq![]
                    };
                    if r.done {
                        (head, None)
                    } else {
                        let rest = stream_fold(replies.drop_first());
                        (head + rest.0, rest.1)
                    }
                },
            },
        }
    }
}

/// The concatenation of texts.
pub open spec fn concat(ts: Seq<Seq<char>>) -> Seq<char>
    decreases ts.len(),
{
    if ts.len() == 0 {
        seq![]
    } else {
        concat(ts.drop_last()) + ts.last()
    }
}

/// Applies the replies of one chunk to the answer gathered so far.
pub fn apply_stream_replies(full: &mut String, replies: Vec<Option<ChatStreamResponse>>) -> (out:
    StreamOutcome)
    ensures
        out.emitted@.map_values(|s: String| s@) == stream_fold(replies@).0,
        match out.error {
            Some(e) => stream_fold(replies@).1 == Some(e@),
            None => stream_fold(replies@).1 is None,
        },
        final(full)@ == old(full)@ + concat(stream_fold(replies@).0),
{
    let mut emitted: Vec<String> = Vec::new();
    let mut i: usize = 0;
    let ghost f = |s: String| s@;
    let ghost start = full@;
    assert(replies@.skip(0) =~= replies@);
    assert(emitted@.map_values(f) + stream_fold(replies@).0 =~= stream_fold(replies@).0);
    assert(concat(emitted@.map_values(f)) == Seq::<char>::empty());
    assert(full@ =~= start + Seq::<char>::empty());
    while i < replies.len()
        invariant
            i <= replies@.len(),
            f == (|s: String| s@),
            ({
                let whole = stream_fold(replies@);
                let rest = stream_fold(replies@.skip(i as int));
                &&& whole.0 == emitted@.map_values(f) + rest.0
                &&& whole.1 == rest.1
            }),
            full@ == start + concat(emitted@.map_values(f)),
            start == old(full)@,
        decreases replies@.len() - i,
    {
        let ghost rest = replies@.skip(i as int);
        assert(rest.drop_first() =~= replies@.skip(i + 1));
        match &replies[i] {
            None => {},
            Some(r) => {
                match &r.error {
                    Some(e) => {
                        let err = e.clone();
                        proof {
                            assert(stream_fold(rest) == (Seq::<Seq<char>>::empty(), Some(e@)));
                            assert(emitted@.map_values(f) + Seq::<Seq<char>>::empty() =~= emitted@.map_values(f));
                            assert(stream_fold(replies@).0 =~= emitted@.map_values(f));
                        }
                        return StreamOutcome { emitted, error: Some(err) };
                    },
                    None => {
                        if !r.response.as_str().is_empty() {
                            let ghost before = emitted@;
                            let piece = r.response.clone();
                            push_str(full, piece.as_str());
                            emitted.push(piece);
                            proof {
                                assert(emitted@.map_values(f) =~= before.map_values(f).push(r.response@));
                                assert(emitted@.map_values(f).drop_last() =~= before.map_values(f));
                            }
                        }
                        if r.done {
                            proof {
                                let whole = stream_fold(replies@);
                                let head: Seq<Seq<char>> = if r.response@.len() > 0 {
                                    seq![r.response@]
                                } else {
                                    seq![]
                                };
                                assert(stream_fold(rest) == (head, None::<Seq<char>>));
                            }
                            assert(emitted@.map_values(f) + Seq::<Seq<char>>::empty() =~= emitted@.map_values(f));
                            assert(stream_fold(replies@).0 =~= emitted@.map_values(f)) by {
                                let head: Seq<Seq<char>> = if r.response@.len() > 0 {
                                    seq![r.response@]
                                } else {
                                    seq![]
                                };
                            }
                            return StreamOutcome { emitted, error: None };
                        }
                    },
                }
            },
        }
        i += 1;
    }
    assert(replies@.skip(replies@.len() as int) =~= Seq::<Option<ChatStreamResponse>>::empty());
    assert(emitted@.map_values(f) + Seq::<Seq<char>>::empty() =~= emitted@.map_values(f));
    StreamOutcome { emitted, error: None }
}

/// A model name without its tag (the text before the first `':'`).
pub open spec fn base_name(name: Seq<char>) -> Seq<char> {
    name.take(crate::app::action::first_index_of(name, ':'))
}

/// The names of the models, without their tags.
pub fn model_names(models: &Vec<ModelInfo>) -> (r: Vec<String>)
    ensures
        r@.map_values(|s: String| s@) == models@.map_values(|m: ModelInfo| base_name(m.name@)),
{
    let mut r: Vec<String> = Vec::new();
    let mut i: usize = 0;
    while i < models.len()
        invariant
            i <= models@.len(),
            r@.map_values(|s: String| s@) == models@.take(i as int).map_values(
                |m: ModelInfo| base_name(m.name@),
            ),
        decreases models@.len() - i,
    {
        let v = crate::text::chars_of(models[i].name.as_str());
        let c = crate::app::action::find_char(&v, ':');
        let s = crate::text::string_of_range(&v, 0, c);
        let ghost before = r@;
        let ghost sv = s@;
        r.push(s);
        assert(sv == base_name(models@[i as int].name@));
        assert(r@.map_values(|s: String| s@) =~= before.map_values(|s: String| s@).push(sv));
        assert(models@.take(i + 1) =~= models@.take(i as int).push(models@[i as int]));
        assert(r@.map_values(|s: String| s@) =~= models@.take(i + 1).map_values(
            |m: ModelInfo| base_name(m.name@),
        ));
        i += 1;
    }
    assert(models@.take(models@.len() as int) =~= models@);
    r
}

} // verus!
