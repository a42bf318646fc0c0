//! Prompt composition: pure, sync and deterministic. Placeholders of the
//! embedded templates are filled from a [`SystemContextSnapshot`] and the
//! user input, and the result is held to the `max_context_chars` cap.

use vstd::prelude::*;
use crate::config::LlmConfig;
use crate::text::{
    chars_of, contains, join_strings_with, join_args, join_spaced, join_with, occurs_at, owned,
    replace_all, replace_all_exec, str_views, string_views,
};
use super::client::LlmRequest;
use super::context::SystemContextSnapshot;
use super::error::LlmError;

verus! {

/// Template for natural-language-to-command prompts.
pub const NL_TO_COMMAND_TEMPLATE: &'static str = "You are a shell command assistant on {os_family} ({arch}).\nCurrent directory: {cwd}\nPATH directories: {path_dirs}\n\nTranslate the request below into a single shell command.\nReply with the command only, on one line, without explanation or markdown.\n\nRequest: {nl_input}\n";

/// Template for prompts that ask for a correction of a command that exited with 127.
pub const ASSIST_ON_127_TEMPLATE: &'static str = "You are a shell command assistant on {os_family} ({arch}).\nCurrent directory: {cwd}\nPATH directories: {path_dirs}\n\nThe command below failed with exit code 127 (command not found).\nSuggest a corrected command.\nReply with the command only, on one line, without explanation or markdown.\n\nFailed command: {failed_cmd}\n";

/// The template with the context placeholders filled in.
pub open spec fn fill_context(template: Seq<char>, ctx: &SystemContextSnapshot) -> Seq<char> {
    replace_all(
        replace_all(
            replace_all(
                replace_all(template, "{os_family}"@, ctx.os_family@),
                "{arch}"@,
                ctx.arch@,
            ),
            "{cwd}"@,
            ctx.cwd@,
        ),
        "{path_dirs}"@,
        join_with(string_views(ctx.path_dirs@), ':'),
    )
}

/// The natural-language prompt for `nl_input` in context `ctx`.
pub open spec fn nl_prompt(nl_input: Seq<char>, ctx: &SystemContextSnapshot) -> Seq<char> {
    replace_all(fill_context(NL_TO_COMMAND_TEMPLATE@, ctx), "{nl_input}"@, nl_input)
}

/// The exit-127 assist prompt for the failed argv in context `ctx`.
pub open spec fn assist_prompt(failed_argv: Seq<Seq<char>>, ctx: &SystemContextSnapshot) -> Seq<char> {
    replace_all(fill_context(ASSIST_ON_127_TEMPLATE@, ctx), "{failed_cmd}"@, join_spaced(failed_argv))
}

/// Builds LLM prompts from templates, enforcing the `max_context_chars` cap.
#[derive(Debug)]
pub struct PromptComposer {
    model: String,
    max_context_chars: usize,
}

/// The composition result for a rendered prompt: a request for `model`
/// when the prompt fits within `max` characters, else `ContextTooLarge`.
pub open spec fn compose_outcome(
    res: Result<LlmRequest, LlmError>,
    model: Seq<char>,
    max: usize,
    prompt: Seq<char>,
) -> bool {
    if prompt.len() <= max {
        res matches Ok(req) && req.model@ == model && req.prompt@ == prompt
    } else {
        res matches Err(e) && e == (LlmError::ContextTooLarge { size: prompt.len() as usize, max })
    }
}

/// Fills the context placeholders of `template`.
fn fill_context_exec(template: &str, ctx: &SystemContextSnapshot) -> (s: String)
    ensures
        s@ == fill_context(template@, ctx),
{
    proof {
        reveal_strlit("{os_family}");
        reveal_strlit("{arch}");
        reveal_strlit("{cwd}");
        reveal_strlit("{path_dirs}");
    }
    let s1 = replace_all_exec(template, "{os_family}", ctx.os_family.as_str());
    let s2 = replace_all_exec(s1.as_str(), "{arch}", ctx.arch.as_str());
    let s3 = replace_all_exec(s2.as_str(), "{cwd}", ctx.cwd.as_str());
    let dirs = join_strings_with(&ctx.path_dirs, ':');
    replace_all_exec(s3.as_str(), "{path_dirs}", dirs.as_str())
}

impl PromptComposer {
    /// The model name embedded in every request.
    pub closed spec fn model_view(&self) -> Seq<char> {
        self.model@
    }

    /// The character cap applied to every prompt.
    pub closed spec fn cap(&self) -> usize {
        self.max_context_chars
    }

    /// Constructs a composer with a model name and character cap.
    pub fn new(model: &str, max_context_chars: usize) -> (c: Self)
        ensures
            c.model_view() == model@,
            c.cap() == max_context_chars,
    {
        PromptComposer { model: owned(model), max_context_chars }
    }

    /// Constructs a composer from an [`LlmConfig`]: `Disabled` when the LLM
    /// is off, `ModelNotSpecified` when no model is named.
    pub fn from_config(config: &LlmConfig) -> (res: Result<Self, LlmError>)
        ensures
            !config.enabled ==> res == Err::<Self, LlmError>(LlmError::Disabled),
            config.enabled && config.model is None ==> res == Err::<Self, LlmError>(
                LlmError::ModelNotSpecified,
            ),
            config.enabled && config.model is Some ==> (res matches Ok(c) && c.model_view()
                == config.model->0@ && c.cap() == config.invocation.max_context_chars as usize),
    {
        if !config.enabled {
            return Err(LlmError::Disabled);
        }
        match &config.model {
            None => Err(LlmError::ModelNotSpecified),
            Some(m) => Ok(
                PromptComposer {
                    model: m.clone(),
                    max_context_chars: config.invocation.max_context_chars as usize,
                },
            ),
        }
    }

    /// The model name embedded in every request.
    pub fn model(&self) -> (s: &str)
        ensures
            s@ == self.model_view(),
    {
        self.model.as_str()
    }

    /// The character cap applied to every prompt.
    pub fn max_context_chars(&self) -> (n: usize)
        ensures
            n == self.cap(),
    {
        self.max_context_chars
    }

    /// Wraps a rendered prompt into a request, or reports it too large.
    fn finish(&self, prompt: String) -> (res: Result<LlmRequest, LlmError>)
        ensures
            compose_outcome(res, self.model_view(), self.cap(), prompt@),
    {
        let size = chars_of(prompt.as_str()).len();
        if size > self.max_context_chars {
            return Err(LlmError::ContextTooLarge { size, max: self.max_context_chars });
        }
        Ok(LlmRequest { model: self.model.clone(), prompt })
    }

    /// Composes a natural-language-to-command prompt.
    pub fn compose_nl_to_command(&self, nl_input: &str, ctx: &SystemContextSnapshot) -> (res:
        Result<LlmRequest, LlmError>)
        ensures
            compose_outcome(res, self.model_view(), self.cap(), nl_prompt(nl_input@, ctx)),
    {
        proof {
            reveal_strlit("{nl_input}");
        }
        let filled = fill_context_exec(NL_TO_COMMAND_TEMPLATE, ctx);
        let prompt = replace_all_exec(filled.as_str(), "{nl_input}", nl_input);
        self.finish(prompt)
    }

    /// Composes an exit-127 assist prompt; the failed argv is joined with spaces.
    pub fn compose_assist_on_127(&self, failed_argv: &[&str], ctx: &SystemContextSnapshot) -> (res:
        Result<LlmRequest, LlmError>)
        ensures
            compose_outcome(
                res,
                self.model_view(),
                self.cap(),
                assist_prompt(str_views(failed_argv@), ctx),
            ),
    {
        proof {
            reveal_strlit("{failed_cmd}");
        }
        let failed_cmd = join_args(failed_argv);
        let filled = fill_context_exec(ASSIST_ON_127_TEMPLATE, ctx);
        let prompt = replace_all_exec(filled.as_str(), "{failed_cmd}", failed_cmd.as_str());
        self.finish(prompt)
    }
}

/// Whether `s` holds no `{`, so no placeholder.
pub open spec fn no_brace(s: Seq<char>) -> bool {
    forall|i: int| 0 <= i < s.len() ==> s[i] != '{'
}

/// A placeholder cannot occur in a text without braces.
proof fn lemma_replace_absent(t: Seq<char>, q: Seq<char>, r: Seq<char>)
    requires
        q.len() > 0,
        q[0] == '{',
        no_brace(t),
    ensures
        replace_all(t, q, r) == t,
    decreases t.len(),
{
    if t.len() >= q.len() {
        assert(t.take(q.len() as int)[0] == t[0]);
        assert(no_brace(t.drop_first())) by {
            assert forall|i: int| 0 <= i < t.drop_first().len() implies t.drop_first()[i] != '{' by {
                assert(t.drop_first()[i] == t[i + 1]);
            }
        }
        lemma_replace_absent(t.drop_first(), q, r);
        assert(seq![t[0]] + t.drop_first() =~= t);
    }
}

/// Replacing placeholder `q` in a text whose only brace opens the
/// placeholder `m`: `m` becomes `r` when it is `q`, and nothing changes
/// when `q` is another placeholder no longer than `m`.
proof fn lemma_replace_marked(pre: Seq<char>, m: Seq<char>, post: Seq<char>, q: Seq<char>, r: Seq<char>)
    requires
        no_brace(pre),
        no_brace(post),
        m.len() > 0,
        m[0] == '{',
        no_brace(m.drop_first()),
        q.len() > 0,
        q[0] == '{',
        q == m || (q.len() <= m.len() && m.take(q.len() as int) != q),
    ensures
        replace_all(pre + m + post, q, r) == pre + (if q == m {
            r
        } else {
            m
        }) + post,
    decreases pre.len(),
{
    let s = pre + m + post;
    if pre.len() == 0 {
        assert(s =~= m + post);
        assert(s.take(q.len() as int) =~= m.take(q.len() as int));
        if q == m {
            assert(s.skip(m.len() as int) =~= post);
            lemma_replace_absent(post, q, r);
            assert(m.take(m.len() as int) =~= m);
        } else {
            let d = m.drop_first() + post;
            assert(no_brace(d)) by {
                assert forall|i: int| 0 <= i < d.len() implies d[i] != '{' by {
                    if i < m.drop_first().len() {
                        assert(d[i] == m.drop_first()[i]);
                    } else {
                        assert(d[i] == post[i - m.drop_first().len()]);
                    }
                }
            }
            assert(s.drop_first() =~= d);
            lemma_replace_absent(d, q, r);
            assert(seq![s[0]] + d =~= s);
        }
    } else {
        let p2 = pre.drop_first();
        assert(no_brace(p2)) by {
            assert forall|i: int| 0 <= i < p2.len() implies p2[i] != '{' by {
                assert(p2[i] == pre[i + 1]);
            }
        }
        lemma_replace_marked(p2, m, post, q, r);
        assert(s.take(q.len() as int)[0] == pre[0]);
        assert(s.drop_first() =~= p2 + m + post);
        assert(seq![s[0]] + (p2 + (if q == m {
            r
        } else {
            m
        }) + post) =~= pre + (if q == m {
            r
        } else {
            m
        }) + post);
    }
}

/// Every part occurs in the parts joined by a separator.
proof fn lemma_join_contains(parts: Seq<Seq<char>>, sep: char, i: int)
    requires
        0 <= i < parts.len(),
    ensures
        contains(join_with(parts, sep), parts[i]),
    decreases parts.len(),
{
    let j = join_with(parts, sep);
    if parts.len() == 1 {
        assert(occurs_at(j, parts[i], 0)) by {
            assert(j.subrange(0, parts[0].len() as int) =~= parts[0]);
        }
    } else if i == parts.len() - 1 {
        let k = j.len() - parts.last().len();
        assert(occurs_at(j, parts[i], k)) by {
            assert(j.subrange(k, j.len() as int) =~= parts.last());
        }
    } else {
        let u = parts.drop_last();
        assert(u[i] == parts[i]);
        lemma_join_contains(u, sep, i);
        let k = choose|k: int| occurs_at(join_with(u, sep), u[i], k);
        assert(occurs_at(j, parts[i], k)) by {
            assert(j.subrange(k, k + u[i].len()) =~= join_with(u, sep).subrange(k, k + u[i].len()));
        }
    }
}

/// The `{path_dirs}` placeholder is filled with all of the snapshot's PATH
/// directories, in order, joined by `:`. For a template holding that one
/// placeholder and no other brace, the rest of the template is kept, the
/// placeholder becomes the joined directories, and so every directory
/// appears in the filled text.
pub proof fn law_path_dirs_all_listed(pre: Seq<char>, post: Seq<char>, ctx: &SystemContextSnapshot)
    requires
        no_brace(pre),
        no_brace(post),
    ensures
        fill_context(pre + "{path_dirs}"@ + post, ctx) == pre + join_with(
            string_views(ctx.path_dirs@),
            ':',
        ) + post,
        forall|i: int|
            0 <= i < ctx.path_dirs@.len() ==> contains(
                fill_context(pre + "{path_dirs}"@ + post, ctx),
                #[trigger] ctx.path_dirs@[i]@,
            ),
{
    reveal_strlit("{path_dirs}");
    reveal_strlit("{os_family}");
    reveal_strlit("{arch}");
    reveal_strlit("{cwd}");
    let m = "{path_dirs}"@;
    assert(no_brace(m.drop_first()));
    assert(m.take(11) != "{os_family}"@) by {
        assert(m.take(11)[1] != "{os_family}"@[1]);
    }
    assert(m.take(6) != "{arch}"@) by {
        assert(m.take(6)[1] != "{arch}"@[1]);
    }
    assert(m.take(5) != "{cwd}"@) by {
        assert(m.take(5)[1] != "{cwd}"@[1]);
    }
    let t = pre + m + post;
    assert(m.take(11) =~= m);
    assert("{os_family}"@ != m && "{arch}"@ != m && "{cwd}"@ != m);
    lemma_replace_marked(pre, m, post, "{os_family}"@, ctx.os_family@);
    assert(replace_all(t, "{os_family}"@, ctx.os_family@) == t);
    lemma_replace_marked(pre, m, post, "{arch}"@, ctx.arch@);
    assert(replace_all(t, "{arch}"@, ctx.arch@) == t);
    lemma_replace_marked(pre, m, post, "{cwd}"@, ctx.cwd@);
    assert(replace_all(t, "{cwd}"@, ctx.cwd@) == t);
    let dirs = string_views(ctx.path_dirs@);
    let j = join_with(dirs, ':');
    lemma_replace_marked(pre, m, post, m, j);
    assert(replace_all(t, m, j) == pre + j + post);
    assert(fill_context(t, ctx) == pre + j + post);
    assert forall|i: int| 0 <= i < ctx.path_dirs@.len() implies contains(
        pre + j + post,
        #[trigger] ctx.path_dirs@[i]@,
    ) by {
        assert(dirs[i] == ctx.path_dirs@[i]@);
        lemma_join_contains(dirs, ':', i);
        let k = choose|k: int| occurs_at(j, dirs[i], k);
        assert(occurs_at(pre + j + post, dirs[i], pre.len() + k)) by {
            assert((pre + j + post).subrange(pre.len() + k, pre.len() + k + dirs[i].len())
                =~= j.subrange(k, k + dirs[i].len()));
        }
    }
}

} // verus!
