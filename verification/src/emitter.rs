//! The infrared emitter: how it is switched on (nothing, or an external
//! command) and what the command's result means.
use vstd::prelude::*;
use crate::text::{
    chars_of, concat, is_whitespace, is_whitespace_char, owned, str_eq, string_from_chars, trim,
    trim_str, utf8_lossy, utf8_lossy_text, views_of,
};

verus! {

/// How the IR emitter is switched on before capturing.
#[derive(Debug, Clone, PartialEq, Eq)]
pub enum EmitterMode {
    Disabled,
    ExternalCommand(ExternalEmitterCommand),
}

/// A program run to switch the emitter on.
#[derive(Debug, Clone, PartialEq, Eq)]
pub struct ExternalEmitterCommand {
    pub program: String,
    pub args: Vec<String>,
}

/// The words of a text: its maximal runs of non-whitespace characters
/// (`str::split_whitespace`).
pub open spec fn words(s: Seq<char>) -> Seq<Seq<char>>
    decreases s.len(),
{
    if s.len() == 0 {
        seq![]
    } else {
        let w = words(s.drop_last());
        let c = s.last();
        if is_whitespace(c) {
            w
        } else if s.len() >= 2 && !is_whitespace(s[s.len() - 2]) {
            w.update(w.len() - 1, w.last().push(c))
        } else {
            w.push(seq![c])
        }
    }
}

proof fn lemma_words_nonempty_when_continuing(s: Seq<char>)
    requires
        s.len() >= 1,
        !is_whitespace(s.last()),
    ensures
        words(s).len() >= 1,
        words(s).last().len() >= 1,
    decreases s.len(),
{
    if s.len() >= 2 && !is_whitespace(s[s.len() - 2]) {
        let t = s.drop_last();
        assert(t.last() == s[s.len() - 2]);
        lemma_words_nonempty_when_continuing(t);
    }
}

/// The words of a text, in order.
pub fn split_whitespace(text: &str) -> (r: Vec<String>)
    ensures
        views_of(r@) == words(text@),
{
    let v = chars_of(text);
    let mut done: Vec<Vec<char>> = Vec::new();
    let ghost mut done_views: Seq<Seq<char>> = seq![];
    let mut cur: Vec<char> = Vec::new();
    let mut i: usize = 0;
    while i < v.len()
        invariant
            i <= v@.len(),
            v@ == text@,
            done_views.len() == done@.len(),
            forall|k: int| 0 <= k < done@.len() ==> #[trigger] done@[k]@ == done_views[k],
            (cur@.len() > 0) == (i > 0 && !is_whitespace(v@[i - 1])),
            words(v@.subrange(0, i as int)) == if cur@.len() > 0 {
                done_views.push(cur@)
            } else {
                done_views
            },
        decreases v@.len() - i,
    {
        let c = v[i];
        let ghost prefix = v@.subrange(0, i + 1);
        let ghost before = v@.subrange(0, i as int);
        let ghost old_cur = cur@;
        let ghost old_done = done_views;
        assert(prefix.drop_last() =~= before);
        assert(prefix.last() == c);
        if is_whitespace_char(c) {
            assert(words(prefix) == words(before));
            if cur.len() > 0 {
                proof {
                    done_views = done_views.push(cur@);
                }
                done.push(cur);
                cur = Vec::new();
            }
        } else {
            if i > 0 {
                assert(prefix[prefix.len() - 2] == v@[i - 1]);
            }
            cur.push(c);
            proof {
                if i > 0 && !is_whitespace(v@[i - 1]) {
                    assert(words(prefix) == words(before).update(
                        words(before).len() - 1,
                        words(before).last().push(c),
                    ));
                    assert(old_done.push(cur@) =~= old_done.push(old_cur).update(
                        old_done.len() as int,
                        old_cur.push(c),
                    ));
                } else {
                    assert(old_cur.len() == 0);
                    assert(cur@ =~= seq![c]);
                    assert(words(prefix) == words(before).push(seq![c]));
                }
            }
        }
        i = i + 1;
    }
    if cur.len() > 0 {
        proof {
            done_views = done_views.push(cur@);
        }
        done.push(cur);
    }
    assert(v@.subrange(0, v@.len() as int) =~= v@);
    let mut r: Vec<String> = Vec::new();
    let mut k: usize = 0;
    while k < done.len()
        invariant
            k <= done@.len(),
            done_views.len() == done@.len(),
            forall|j: int| 0 <= j < done@.len() ==> #[trigger] done@[j]@ == done_views[j],
            views_of(r@) =~= done_views.subrange(0, k as int),
        decreases done@.len() - k,
    {
        let w = string_from_chars(done[k].as_slice());
        let ghost old_r = r@;
        r.push(w);
        assert(views_of(r@) =~= views_of(old_r).push(done_views[k as int]));
        assert(done_views.subrange(0, k + 1) =~= done_views.subrange(0, k as int).push(
            done_views[k as int],
        ));
        k = k + 1;
    }
    assert(done_views.subrange(0, done@.len() as int) =~= done_views);
    r
}

/// The program run when none is configured.
pub const DEFAULT_EMITTER_PROGRAM: &'static str = "linux-enable-ir-emitter";

/// The arguments given to the program: the configured words, or `run` when
/// none are configured or the setting holds no word.
pub open spec fn emitter_args(args: Option<String>) -> Seq<Seq<char>> {
    match args {
        Some(a) => if words(a@).len() > 0 {
            words(a@)
        } else {
            seq!["run"@]
        },
        None => seq!["run"@],
    }
}

/// The emitter mode from the settings `FACE_AUTHD_EMITTER_MODE`,
/// `FACE_AUTHD_EMITTER_CMD` and `FACE_AUTHD_EMITTER_ARGS` (`None` where
/// unset): an external command only for the mode `external-command`.
pub fn emitter_from_settings(mode: Option<String>, program: Option<String>, args: Option<String>) -> (m:
    EmitterMode)
    ensures
        (mode matches Some(md) && md@ == "external-command"@) ==> (m matches EmitterMode::ExternalCommand(
            cmd,
        ) && cmd.program@ == (match program {
            Some(p) => p@,
            None => DEFAULT_EMITTER_PROGRAM@,
        }) && views_of(cmd.args@) == emitter_args(args)),
        !(mode matches Some(md) && md@ == "external-command"@) ==> m == EmitterMode::Disabled,
{
    let external = match &mode {
        Some(md) => str_eq(md.as_str(), "external-command"),
        None => false,
    };
    if !external {
        return EmitterMode::Disabled;
    }
    let program = match program {
        Some(p) => p,
        None => owned(DEFAULT_EMITTER_PROGRAM),
    };
    let mut words_given = match &args {
        Some(a) => split_whitespace(a.as_str()),
        None => Vec::new(),
    };
    if words_given.len() == 0 {
        words_given = Vec::new();
        words_given.push(owned("run"));
        assert(views_of(words_given@) =~= seq!["run"@]);
    }
    EmitterMode::ExternalCommand(ExternalEmitterCommand { program, args: words_given })
}

/// What running the emitter command gave: an error message when it
/// failed, else the line to report when it printed something.
pub fn emitter_outcome(
    program: &str,
    succeeded: bool,
    exit_status: &str,
    stdout: &[u8],
    stderr: &[u8],
) -> (r: Result<Option<String>, String>)
    ensures
        !succeeded ==> (r matches Err(msg) && msg@ == "emitter command '"@ + program@
            + "' failed (exit="@ + exit_status@ + " stdout='"@ + trim(utf8_lossy_text(stdout@))
            + "' stderr='"@ + trim(utf8_lossy_text(stderr@)) + "')"@),
        succeeded && trim(utf8_lossy_text(stdout@)).len() == 0 ==> r == Ok::<
            Option<String>,
            String,
        >(None),
        succeeded && trim(utf8_lossy_text(stdout@)).len() > 0 ==> (r matches Ok(Some(line))
            && line@ == "emitter: ran '"@ + program@ + "': "@ + trim(utf8_lossy_text(stdout@))),
{
    let out = trim_str(utf8_lossy(stdout).as_str());
    if !succeeded {
        let err = trim_str(utf8_lossy(stderr).as_str());
        let mut msg = concat("emitter command '", program);
        msg.append("' failed (exit=");
        msg.append(exit_status);
        msg.append(" stdout='");
        msg.append(out.as_str());
        msg.append("' stderr='");
        msg.append(err.as_str());
        msg.append("')");
        return Err(msg);
    }
    if out.as_str().is_empty() {
        Ok(None)
    } else {
        let mut line = concat("emitter: ran '", program);
        line.append("': ");
        line.append(out.as_str());
        Ok(Some(line))
    }
}

} // verus!
