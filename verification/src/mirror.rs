//! The mirror synchronization protocol.
//!
//! Canonical run state is propagated to an external versioned mirror with
//! fetch-token-write semantics: read the current content and its opaque
//! token, serialize the snapshot, and submit a conditional write carrying
//! the token.  The mirror accepts the write only while its token is
//! unchanged; a token is single-use, so two cycles racing on the same
//! target make the second fail with a conflict — which is why pushes to one
//! target must be serialized.  [`MirrorWrite`] is the payload handed to the
//! remote call; [`Mirror`] is the model of the remote store the protocol is
//! proved against.

use vstd::prelude::*;
use base64::Engine;
use crate::state::state_str;
use crate::store::{Run, RunView, runs_seq, clone_run};
use crate::text::{i32_to_string, dec_int};
use crate::json::{json_of_runs, runs_to_json};

verus! {

/// What the base64 encoding of a string's bytes is; a function of the
/// input alone.
pub uninterp spec fn b64_of(s: Seq<char>) -> Seq<char>;

/// Relies on base64's `STANDARD` engine `encode`: the result is a function
/// of the input bytes alone, and an empty input encodes to an empty string.
#[verifier::external_body]
fn b64_encode(s: &str) -> (r: String)
    ensures
        r@ == b64_of(s@),
        s@.len() == 0 ==> r@.len() == 0,
{
    base64::engine::general_purpose::STANDARD.encode(s.as_bytes())
}

/// The change message recorded for a single-run push.
pub open spec fn spec_event_message(r: RunView) -> Seq<char> {
    "Update run "@ + dec_int(r.run_number) + " state to "@ + state_str(r.state)
        + " via Web Dashboard"@
}

/// The change message recorded for a full-collection push.
pub open spec fn spec_bulk_message() -> Seq<char> {
    "Bulk update runs state via Web Dashboard"@
}

/// A conditional write request: the new (encoded) content, a human-readable
/// change message, and the token observed by the fetch that began this
/// cycle.
pub struct MirrorWrite {
    pub message: String,
    pub content: String,
    pub token: String,
}

/// Builds the conditional write for one run's snapshot: the content is the
/// base64 of the canonical JSON array holding just that run.
pub fn build_run_write(run: &Run, token: String) -> (w: MirrorWrite)
    ensures
        w.message@ == spec_event_message(run@),
        w.content@ == b64_of(json_of_runs(seq![run@])),
        w.token@ == token@,
{
    let mut message = String::new();
    message.append("Update run ");
    let rn = i32_to_string(run.run_number);
    message.append(rn.as_str());
    message.append(" state to ");
    let st = crate::state::state_to_string(run.state);
    message.append(st.as_str());
    message.append(" via Web Dashboard");
    proof {
        assert(message@ =~= spec_event_message(run@));
    }
    let mut snapshot: Vec<Run> = Vec::new();
    snapshot.push(clone_run(run));
    proof {
        assert(runs_seq(snapshot@) =~= seq![run@]);
    }
    let json = runs_to_json(&snapshot);
    let content = b64_encode(json.as_str());
    MirrorWrite { message, content, token }
}

/// Builds the conditional write for a full-collection push.
pub fn build_bulk_write(runs: &Vec<Run>, token: String) -> (w: MirrorWrite)
    ensures
        w.message@ == spec_bulk_message(),
        w.content@ == b64_of(json_of_runs(runs_seq(runs@))),
        w.token@ == token@,
{
    let message = String::from_str("Bulk update runs state via Web Dashboard");
    let json = runs_to_json(runs);
    let content = b64_encode(json.as_str());
    MirrorWrite { message, content, token }
}

/// Why a mirror write failed.
#[derive(Clone, Copy, PartialEq, Eq, Structural, Debug)]
pub enum MirrorError {
    /// The submitted token is stale: the mirror changed since the fetch.
    Conflict,
}

/// A model of the external versioned mirror: its current content and its
/// opaque token, which changes on every accepted write.
pub struct Mirror {
    pub content: String,
    pub token: u64,
}

pub ghost struct MirrorView {
    pub content: Seq<char>,
    pub token: int,
}

impl View for Mirror {
    type V = MirrorView;

    open spec fn view(&self) -> MirrorView {
        MirrorView { content: self.content@, token: self.token as int }
    }
}

/// What a conditional write does: accepted only while the submitted token
/// equals the mirror's, replacing the content and invalidating the token.
pub open spec fn spec_mirror_write(m: MirrorView, content: Seq<char>, token: int) -> (
    MirrorView,
    bool,
) {
    if token == m.token {
        (
            MirrorView {
                content,
                token: if m.token == u64::MAX as int {
                    0
                } else {
                    m.token + 1
                },
            },
            true,
        )
    } else {
        (m, false)
    }
}

impl Mirror {
    /// Reads the current content and the token required for the next write.
    pub fn fetch(&self) -> (r: (String, u64))
        ensures
            r.0@ == self@.content,
            r.1 as int == self@.token,
    {
        (self.content.clone(), self.token)
    }

    /// Submits a conditional write: accepted if and only if `token` is
    /// still current; an accepted write replaces the content and changes
    /// the token, a rejected one changes nothing.
    pub fn conditional_write(&mut self, content: String, token: u64) -> (r: Result<
        (),
        MirrorError,
    >)
        ensures
            final(self)@ == spec_mirror_write(old(self)@, content@, token as int).0,
            r is Ok == spec_mirror_write(old(self)@, content@, token as int).1,
            r is Err ==> r == Result::<(), MirrorError>::Err(MirrorError::Conflict),
            r is Ok ==> final(self)@.token != old(self)@.token,
    {
        if token == self.token {
            self.content = content;
            self.token = if self.token == u64::MAX {
                0
            } else {
                self.token + 1
            };
            Ok(())
        } else {
            Err(MirrorError::Conflict)
        }
    }

    /// One full push cycle of the whole run collection against this mirror:
    /// fetch the token, serialize, write.  Run in isolation it always
    /// succeeds and leaves the mirror holding the encoded canonical JSON of
    /// the collection.
    pub fn push_runs(&mut self, runs: &Vec<Run>) -> (r: Result<(), MirrorError>)
        ensures
            r is Ok,
            final(self)@.content == b64_of(json_of_runs(runs_seq(runs@))),
            final(self)@.token != old(self)@.token,
    {
        let (_content, token) = self.fetch();
        let json = runs_to_json(runs);
        let content = b64_encode(json.as_str());
        self.conditional_write(content, token)
    }
}

/// A token is single-use: two conditional writes prepared from the same
/// fetch see the first accepted and the second rejected with a conflict,
/// and the mirror content reflects only the first write.
pub proof fn lemma_stale_token_conflicts(m: MirrorView, c1: Seq<char>, c2: Seq<char>)
    ensures
        spec_mirror_write(m, c1, m.token).1,
        spec_mirror_write(m, c1, m.token).0.content == c1,
        !spec_mirror_write(spec_mirror_write(m, c1, m.token).0, c2, m.token).1,
        spec_mirror_write(spec_mirror_write(m, c1, m.token).0, c2, m.token).0
            == spec_mirror_write(m, c1, m.token).0,
{
    let m1 = spec_mirror_write(m, c1, m.token).0;
    assert(m1.token != m.token);
}

} // verus!
