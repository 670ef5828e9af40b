//! The chat service's settings and the prompts it sends to the model.
use crate::app::state::FileReference;
use crate::db::store::CodeChunk;
use crate::service::Config;
use crate::text::{decimal, join_lines, push_decimal, push_str, to_string};
use vstd::prelude::*;

verus! {

/// The chat service's model settings. The model client and the index of
/// embedded chunks are held beside it by the caller.
pub struct ChatService {
    config: Config,
}

/// The prompt part for the file reference at position `idx`, when its
/// content was read.
pub open spec fn ref_part(idx: nat, path: Seq<char>, content: Seq<char>) -> Seq<char> {
    "\n["@ + decimal(idx + 1) + "] "@ + path + ":\n"@ + content + "\n"@
}

/// The prompt parts for the file references from position `k` on.
pub open spec fn ref_parts(refs: Seq<FileReference>, k: nat) -> Seq<Seq<char>>
    decreases refs.len() - k,
{
    if k >= refs.len() {
        seq![]
    } else {
        let rest = ref_parts(refs, k + 1);
        match refs[k as int].content {
            Some(c) => seq![ref_part(k, refs[k as int].path@, c@)] + rest,
            None => rest,
        }
    }
}

/// The prompt part for a retrieved chunk.
pub open spec fn chunk_part(c: CodeChunk) -> Seq<char> {
    "\n--- "@ + c.file_path@ + " ---\n"@ + c.content@
}

/// The parts of a prompt: the referenced files under a heading, the
/// retrieved chunks under a heading, then the question.
pub open spec fn prompt_parts(
    query: Seq<char>,
    refs: Seq<FileReference>,
    ctx: Seq<CodeChunk>,
) -> Seq<Seq<char>> {
    let file_part = if refs.len() > 0 {
        seq!["Referenced files:"@] + ref_parts(refs, 0)
    } else {
        seq![]
    };
    let ctx_part = if ctx.len() > 0 {
        seq!["\nRelated context from codebase:"@] + ctx.map_values(|c: CodeChunk| chunk_part(c))
    } else {
        seq![]
    };
    file_part + ctx_part + seq!["\nQuestion: "@ + query]
}

/// The context chunks joined by blank lines.
pub open spec fn context_text(ctx: Seq<CodeChunk>) -> Seq<char>
    decreases ctx.len(),
{
    if ctx.len() == 0 {
        seq![]
    } else if ctx.len() == 1 {
        "--- "@ + ctx[0].file_path@ + " ---\n"@ + ctx[0].content@
    } else {
        context_text(ctx.drop_last()) + "\n\n"@ + "--- "@ + ctx.last().file_path@ + " ---\n"@
            + ctx.last().content@
    }
}

/// The parts joined, with `'\n'` between them.
fn join_parts(parts: &Vec<String>) -> (s: String)
    ensures
        s@ == join_lines(parts@.map_values(|p: String| p@)),
{
    let mut s = String::new();
    let ghost f = |p: String| p@;
    let mut i: usize = 0;
    assert(parts@.take(0).map_values(f) =~= Seq::<Seq<char>>::empty());
    while i < parts.len()
        invariant
            i <= parts@.len(),
            f == (|p: String| p@),
            s@ == join_lines(parts@.take(i as int).map_values(f)),
        decreases parts@.len() - i,
    {
        let ghost prev = parts@.take(i as int).map_values(f);
        let ghost next = parts@.take(i + 1).map_values(f);
        assert(next.drop_last() =~= prev);
        assert(next.last() == parts@[i as int]@);
        if i > 0 {
            s.push('\n');
        }
        push_str(&mut s, parts[i].as_str());
        proof {
            if i == 0 {
                assert(s@ =~= next[0]);
            }
        }
        i += 1;
    }
    assert(parts@.take(parts@.len() as int) =~= parts@);
    s
}

fn push_part(parts: &mut Vec<String>, p: String)
    ensures
        final(parts)@.map_values(|x: String| x@) == old(parts)@.map_values(|x: String| x@).push(p@),
{
    parts.push(p);
    assert(parts@.map_values(|x: String| x@) =~= old(parts)@.map_values(|x: String| x@).push(p@));
}

impl ChatService {
    pub fn new(config: Config) -> (s: ChatService)
        ensures
            s.config() == config,
    {
        ChatService { config }
    }

    /// The service's settings.
    pub closed spec fn config(&self) -> Config {
        self.config
    }

    /// The service's settings.
    pub fn settings(&self) -> (c: &Config)
        ensures
            *c == self.config(),
    {
        &self.config
    }

    pub fn set_chat_model(&mut self, model: String)
        ensures
            final(self).config() == (Config { chat_model: model, ..old(self).config() }),
    {
        self.config.chat_model = model;
    }

    pub fn set_embed_model(&mut self, model: String)
        ensures
            final(self).config() == (Config { embed_model: model, ..old(self).config() }),
    {
        self.config.embed_model = model;
    }

    pub fn get_chat_model(&self) -> (m: &str)
        ensures
            m@ == self.config().chat_model@,
    {
        self.config.chat_model.as_str()
    }

    /// The prompt for a question with its file references and the chunks
    /// retrieved for it.
    pub fn build_prompt_with_refs(
        &self,
        query: &str,
        file_refs: &[FileReference],
        rag_context: &[CodeChunk],
    ) -> (p: String)
        ensures
            p@ == join_lines(prompt_parts(query@, file_refs@, rag_context@)),
    {
        let mut parts: Vec<String> = Vec::new();
        let ghost f = |x: String| x@;
        assert(parts@.map_values(f) =~= Seq::<Seq<char>>::empty());
        if file_refs.len() > 0 {
            push_part(&mut parts, to_string("Referenced files:"));
            let mut idx: usize = 0;
            let ghost base = parts@.map_values(f);
            assert(ref_parts(file_refs@, 0) =~= ref_parts(file_refs@, 0).take(0) + ref_parts(
                file_refs@,
                0,
            ));
            while idx < file_refs.len()
                invariant
                    idx <= file_refs@.len(),
                    f == (|x: String| x@),
                    base == seq!["Referenced files:"@],
                    parts@.map_values(f) + ref_parts(file_refs@, idx as nat) == base + ref_parts(
                        file_refs@,
                        0,
                    ),
                decreases file_refs@.len() - idx,
            {
                let ghost before = parts@.map_values(f);
                match &file_refs[idx].content {
                    Some(content) => {
                        let mut s = to_string("\n[");
                        push_decimal(&mut s, (idx as u64) + 1);
                        push_str(&mut s, "] ");
                        push_str(&mut s, file_refs[idx].path.as_str());
                        push_str(&mut s, ":\n");
                        push_str(&mut s, content.as_str());
                        push_str(&mut s, "\n");
                        assert(s@ == ref_part(idx as nat, file_refs@[idx as int].path@, content@));
                        push_part(&mut parts, s);
                        assert(before.push(s@) + ref_parts(file_refs@, (idx + 1) as nat) =~= before
                            + ref_parts(file_refs@, idx as nat));
                    },
                    None => {},
                }
                idx += 1;
            }
        }
        let ghost after_refs = parts@.map_values(f);
        if rag_context.len() > 0 {
            push_part(&mut parts, to_string("\nRelated context from codebase:"));
            let ghost head = parts@.map_values(f);
            let mut k: usize = 0;
            while k < rag_context.len()
                invariant
                    k <= rag_context@.len(),
                    f == (|x: String| x@),
                    parts@.map_values(f) == head + rag_context@.take(k as int).map_values(
                        |c: CodeChunk| chunk_part(c),
                    ),
                decreases rag_context@.len() - k,
            {
                let mut s = to_string("\n--- ");
                push_str(&mut s, rag_context[k].file_path.as_str());
                push_str(&mut s, " ---\n");
                push_str(&mut s, rag_context[k].content.as_str());
                let ghost before = parts@.map_values(f);
                push_part(&mut parts, s);
                assert(rag_context@.take(k + 1).map_values(|c: CodeChunk| chunk_part(c))
                    =~= rag_context@.take(k as int).map_values(|c: CodeChunk| chunk_part(c)).push(
                    s@,
                ));
                k += 1;
            }
            assert(rag_context@.take(rag_context@.len() as int) =~= rag_context@);
        }
        let mut q = to_string("\nQuestion: ");
        push_str(&mut q, query);
        push_part(&mut parts, q);
        proof {
            if file_refs@.len() > 0 {
                assert(ref_parts(file_refs@, file_refs@.len() as nat) =~= Seq::<Seq<char>>::empty());
            }
            assert(parts@.map_values(f) =~= prompt_parts(query@, file_refs@, rag_context@));
        }
        join_parts(&parts)
    }

    /// The prompt with the context chunks before the question (the question
    /// alone when there is no context).
    fn build_prompt(&self, query: &str, context: &[CodeChunk]) -> (p: String)
        ensures
            context@.len() == 0 ==> p@ == query@,
            context@.len() > 0 ==> p@ == "Use the following context to answer the question.\n\nContext:\n"@
                + context_text(context@) + "\n\nQuestion: "@ + query@,
    {
        if context.len() == 0 {
            return to_string(query);
        }
        let mut ctx = String::new();
        let mut i: usize = 0;
        while i < context.len()
            invariant
                i <= context@.len(),
                ctx@ == context_text(context@.take(i as int)),
            decreases context@.len() - i,
        {
            assert(context@.take(i + 1).drop_last() =~= context@.take(i as int));
            if i > 0 {
                push_str(&mut ctx, "\n\n");
            }
            push_str(&mut ctx, "--- ");
            push_str(&mut ctx, context[i].file_path.as_str());
            push_str(&mut ctx, " ---\n");
            push_str(&mut ctx, context[i].content.as_str());
            proof {
                if i == 0 {
                    assert(ctx@ =~= context_text(context@.take(1)));
                } else {
                    assert(ctx@ =~= context_text(context@.take(i + 1)));
                }
            }
            i += 1;
        }
        assert(context@.take(context@.len() as int) =~= context@);
        let mut p = to_string("Use the following context to answer the question.\n\nContext:\n");
        push_str(&mut p, ctx.as_str());
        push_str(&mut p, "\n\nQuestion: ");
        push_str(&mut p, query);
        p
    }
}

} // verus!
