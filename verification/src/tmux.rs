//! tmux sessions that run a feature's coding agent, as far as the dashboard
//! reads them from tmux's output.
use vstd::prelude::*;
use crate::text::{chars_of, contains, contains_range, find_char_range, first_index, line_ranges, lines, string_of_range};

verus! {

#[derive(Debug, Clone, Copy, PartialEq, Eq, Structural)]
pub enum SessionStatus {
    Running,
    Idle,
    Exited,
    NotFound,
}

#[derive(Debug)]
pub struct TmuxSession {
    pub name: String,
    pub pane_id: String,
    pub status: SessionStatus,
    pub last_snapshot: Vec<String>,
}

impl Clone for TmuxSession {
    fn clone(&self) -> (r: Self)
        ensures
            r.name == self.name,
            r.pane_id == self.pane_id,
            r.status == self.status,
            r.last_snapshot@ == self.last_snapshot@,
    {
        let last_snapshot = self.last_snapshot.clone();
        assert(last_snapshot@ =~= self.last_snapshot@);
        TmuxSession {
            name: self.name.clone(),
            pane_id: self.pane_id.clone(),
            status: self.status,
            last_snapshot,
        }
    }
}

/// Runs tmux; its commands are performed by the application around the
/// library.
pub struct TmuxClient;

pub open spec fn texts_of(v: Seq<String>) -> Seq<Seq<char>> {
    Seq::new(v.len(), |k: int| v[k]@)
}

/// The lines of a command's output, as owned texts.
pub fn output_lines(text: &str) -> (r: Vec<String>)
    ensures
        texts_of(r@) == lines(text@),
{
    let v = chars_of(text);
    let ls = line_ranges(&v);
    let mut out: Vec<String> = Vec::new();
    let mut k: usize = 0;
    while k < ls.len()
        invariant
            v@ == text@,
            ls@.len() == lines(v@).len(),
            forall|j: int|
                0 <= j < ls@.len() ==> {
                    &&& (#[trigger] ls@[j]).0 <= ls@[j].1 <= v@.len()
                    &&& v@.subrange(ls@[j].0 as int, ls@[j].1 as int) == lines(v@)[j]
                },
            k <= ls@.len(),
            out@.len() == k,
            forall|j: int| 0 <= j < k ==> (#[trigger] out@[j])@ == lines(v@)[j],
        decreases ls@.len() - k,
    {
        let (lo, hi) = ls[k];
        out.push(string_of_range(&v, lo, hi));
        k = k + 1;
    }
    assert(texts_of(out@) =~= lines(v@));
    out
}

/// Index of the first session whose name contains `feature_id`.
pub open spec fn session_index(sessions: Seq<String>, feature_id: Seq<char>) -> Option<int>
    decreases sessions.len(),
{
    if sessions.len() == 0 {
        None
    } else {
        match session_index(sessions.drop_last(), feature_id) {
            Some(i) => Some(i),
            None => if contains(sessions.last()@, feature_id) {
                Some(sessions.len() - 1)
            } else {
                None
            },
        }
    }
}

proof fn lemma_session_index_prefix(s: Seq<String>, n: int, id: Seq<char>)
    requires
        0 <= n <= s.len(),
        session_index(s.take(n), id) is Some,
    ensures
        session_index(s, id) == session_index(s.take(n), id),
    decreases s.len() - n,
{
    if n < s.len() {
        assert(s.take(n + 1).drop_last() =~= s.take(n));
        lemma_session_index_prefix(s, n + 1, id);
    } else {
        assert(s.take(n) =~= s);
    }
}

/// The first session whose name contains the feature id.
pub fn session_for_feature(sessions: &Vec<String>, feature_id: &str) -> (r: Option<String>)
    ensures
        match session_index(sessions@, feature_id@) {
            Some(i) => r == Some(sessions@[i]),
            None => r is None,
        },
{
    let needle = chars_of(feature_id);
    let mut i: usize = 0;
    while i < sessions.len()
        invariant
            i <= sessions@.len(),
            needle@ == feature_id@,
            session_index(sessions@.take(i as int), feature_id@) is None,
        decreases sessions@.len() - i,
    {
        assert(sessions@.take(i + 1).drop_last() =~= sessions@.take(i as int));
        assert(sessions@.take(i + 1).last() == sessions@[i as int]);
        let hay = chars_of(sessions[i].as_str());
        let hit = contains_range(&hay, 0, hay.len(), &needle);
        assert(hay@.subrange(0, hay@.len() as int) =~= hay@);
        if hit {
            proof {
                lemma_session_index_prefix(sessions@, i + 1, feature_id@);
            }
            return Some(sessions[i].clone());
        }
        i = i + 1;
    }
    assert(sessions@.take(i as int) =~= sessions@);
    None
}

/// The pane id is what comes before the first `:` of tmux's
/// `#{pane_id}:#{pane_current_command}` line.
pub open spec fn pane_id_of(line: Seq<char>) -> Seq<char> {
    match first_index(line, ':') {
        Some(i) => line.take(i),
        None => line,
    }
}

/// A pane running an interactive shell is idle; anything else is running.
pub open spec fn status_of_pane(line: Seq<char>) -> SessionStatus {
    if contains(line, "bash"@) || contains(line, "zsh"@) {
        SessionStatus::Idle
    } else {
        SessionStatus::Running
    }
}

/// The first line of a text (empty when there is none).
pub open spec fn first_line(text: Seq<char>) -> Seq<char> {
    if lines(text).len() > 0 {
        lines(text)[0]
    } else {
        Seq::empty()
    }
}

/// The session named `name`, described by the output of
/// `tmux list-panes -F '#{pane_id}:#{pane_current_command}'`.
pub fn session_from_panes(name: String, pane_listing: &str) -> (r: TmuxSession)
    ensures
        r.name == name,
        r.pane_id@ == pane_id_of(first_line(pane_listing@)),
        r.status == status_of_pane(first_line(pane_listing@)),
        r.last_snapshot@.len() == 0,
{
    let v = chars_of(pane_listing);
    let ls = line_ranges(&v);
    let (lo, hi) = if ls.len() > 0 {
        ls[0]
    } else {
        (0, 0)
    };
    assert(v@.subrange(0, 0) =~= Seq::<char>::empty());
    let pane_id = match find_char_range(&v, lo, hi, ':') {
        Some(j) => {
            assert(v@.subrange(lo as int, hi as int).take(j - lo) =~= v@.subrange(lo as int, j as int));
            string_of_range(&v, lo, j)
        },
        None => string_of_range(&v, lo, hi),
    };
    let bash = chars_of("bash");
    let zsh = chars_of("zsh");
    let status = if contains_range(&v, lo, hi, &bash) || contains_range(&v, lo, hi, &zsh) {
        SessionStatus::Idle
    } else {
        SessionStatus::Running
    };
    TmuxSession { name, pane_id, status, last_snapshot: Vec::new() }
}

/// A pane whose listing line names a `zsh` or `bash` shell anywhere is idle;
/// one that names neither is running.
pub proof fn law_shell_pane_is_idle(before: Seq<char>, after: Seq<char>)
    ensures
        status_of_pane(before + "zsh"@ + after) == SessionStatus::Idle,
        status_of_pane(before + "bash"@ + after) == SessionStatus::Idle,
        forall|line: Seq<char>|
            !contains(line, "zsh"@) && !contains(line, "bash"@) ==> status_of_pane(line)
                == SessionStatus::Running,
{
    let z = before + "zsh"@ + after;
    assert(z.subrange(before.len() as int, (before.len() + "zsh"@.len()) as int) =~= "zsh"@);
    assert(crate::text::matches_at(z, "zsh"@, before.len() as int));
    let b = before + "bash"@ + after;
    assert(b.subrange(before.len() as int, (before.len() + "bash"@.len()) as int) =~= "bash"@);
    assert(crate::text::matches_at(b, "bash"@, before.len() as int));
}

} // verus!
