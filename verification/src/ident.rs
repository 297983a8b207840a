//! Machine and session identity.
//!
//! The machine id is a UUID persisted by the host in a well-known file:
//! readable contents are reused, anything else is replaced by a fresh
//! UUID that the host then writes back, best effort.  The session id is a
//! UUID drawn once and then handed back unchanged for the life of the
//! process.

use vstd::prelude::*;

verus! {

/// The canonical hyphenated text of the UUID that `uuid::Uuid::parse_str`
/// reads out of `s`, or `None` when `s` parses as no UUID.
pub uninterp spec fn parsed_uuid(s: Seq<char>) -> Option<Seq<char>>;

/// Relies on uuid::Uuid::parse_str and uuid's hyphenated rendering: both
/// depend on their input alone, and rendering what was parsed yields text
/// that parses back to itself.
#[verifier::external_body]
fn parse_uuid(s: &str) -> (r: Option<String>)
    ensures
        r is Some <==> parsed_uuid(s@) is Some,
        r is Some ==> r->0@ == parsed_uuid(s@)->0 && parsed_uuid(r->0@) == Some(r->0@),
{
    uuid::Uuid::parse_str(s).ok().map(|u| u.to_string())
}

/// Relies on uuid::Uuid::new_v4 and uuid's hyphenated rendering: the
/// rendered text of a freshly drawn UUID parses back to itself; nothing
/// else can be promised of a random value.
#[verifier::external_body]
fn fresh_uuid() -> (r: String)
    ensures
        parsed_uuid(r@) == Some(r@),
{
    uuid::Uuid::new_v4().to_string()
}

/// The machine-id protocol on given file contents and a fresh candidate:
/// contents that parse are reused in canonical form and nothing is
/// written; anything else resolves to the candidate, to be written back.
pub open spec fn resolve_spec(contents: Option<Seq<char>>, fresh: Seq<char>) -> (Seq<char>, bool) {
    match contents {
        Option::Some(s) => if parsed_uuid(s) is Some {
            (parsed_uuid(s)->0, false)
        } else {
            (fresh, true)
        },
        Option::None => (fresh, true),
    }
}

/// Resolves the machine id from the persisted file's contents (`None`
/// when the file is absent or unreadable) and an explicit fresh
/// candidate.  The second component of the result says whether the
/// resolved id must be written back.
pub fn resolve_machine_id_with(contents: Option<&str>, fresh: String) -> (r: (String, bool))
    ensures
        (r.0@, r.1) == resolve_spec(contents.deep_view(), fresh@),
        !r.1 ==> parsed_uuid(r.0@) == Some(r.0@),
{
    match contents {
        Option::Some(s) => {
            match parse_uuid(s) {
                Option::Some(canonical) => (canonical, false),
                Option::None => (fresh, true),
            }
        },
        Option::None => (fresh, true),
    }
}

/// Resolves the machine id from the persisted file's contents, drawing
/// the fresh candidate itself.  The resolved id always parses back to
/// itself, so a later run that reads it keeps it.
pub fn resolve_machine_id(contents: Option<&str>) -> (r: (String, bool))
    ensures
        parsed_uuid(r.0@) == Some(r.0@),
        (match contents.deep_view() {
            Option::Some(s) => parsed_uuid(s) is Some ==> r.0@ == parsed_uuid(s)->0 && !r.1,
            Option::None => true,
        }),
        (match contents.deep_view() {
            Option::Some(s) => parsed_uuid(s) is None ==> r.1,
            Option::None => r.1,
        }),
{
    let fresh = fresh_uuid();
    resolve_machine_id_with(contents, fresh)
}

/// Persistence of the machine id: an id that parses back to itself — as
/// every id the protocol resolves does — is kept unchanged by any later
/// run that reads it, and that run writes nothing.
pub proof fn lemma_machine_id_persistent(
    contents: Option<Seq<char>>,
    fresh: Seq<char>,
    later_fresh: Seq<char>,
)
    ensures
        parsed_uuid(resolve_spec(contents, fresh).0) == Some(resolve_spec(contents, fresh).0)
            ==> resolve_spec(Some(resolve_spec(contents, fresh).0), later_fresh) == (
            resolve_spec(contents, fresh).0,
            false,
        ),
{
}

/// The per-process session id: a one-shot cell that draws a UUID at the
/// first request and hands the same one back ever after.
pub struct SessionCell {
    id: Option<String>,
}

impl SessionCell {
    /// Whatever the cell holds was drawn by [`fresh_uuid`], so it is
    /// canonical UUID text.
    #[verifier::type_invariant]
    closed spec fn inv(self) -> bool {
        match self.id {
            Option::Some(s) => parsed_uuid(s@) == Some(s@),
            Option::None => true,
        }
    }

    /// The id drawn so far, if any.
    pub closed spec fn current(&self) -> Option<Seq<char>> {
        match self.id {
            Option::Some(s) => Option::Some(s@),
            Option::None => Option::None,
        }
    }

    /// An empty cell: no session id has been drawn yet.
    pub fn new() -> (r: SessionCell)
        ensures
            r.current() is None,
    {
        SessionCell { id: None }
    }

    /// Returns the session id, drawing it on the first call; repeated
    /// calls on the same cell return the same id, and it is always
    /// canonical UUID text.
    pub fn session_id(&mut self) -> (r: String)
        ensures
            final(self).current() == Some(r@),
            old(self).current() is Some ==> r@ == old(self).current()->0,
            parsed_uuid(r@) == Some(r@),
    {
        proof {
            use_type_invariant(&*self);
        }
        match &self.id {
            Option::Some(s) => s.clone(),
            Option::None => {
                let f = fresh_uuid();
                self.id = Some(f.clone());
                f
            },
        }
    }
}

} // verus!
