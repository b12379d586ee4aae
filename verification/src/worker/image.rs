//! The tasks that pull, import and export images: the events they take and
//! how they read the progress messages of the engine.
use vstd::prelude::*;
use vstd::string::*;

use crate::text::{contains, has_infix, has_prefix, starts_with, trim_start_all, trim_start_matches};

verus! {

#[derive(Debug, PartialEq, Eq, Structural, Clone, Copy)]
pub enum ImageImportEvent {
    PollData,
    Kill,
}

#[derive(Debug, PartialEq, Eq, Structural, Clone, Copy)]
pub enum ImageExportEvent {
    Kill,
}

/// How a pull ends, read from one status message of the engine: a message
/// that holds `Digest:` ends it with the digest (the message without its
/// leading `Digest: `), one that holds `error` ends it with that error, and
/// any other lets it go on (`None`).
pub open spec fn pull_outcome(status: Seq<char>) -> Option<Result<Seq<char>, Seq<char>>> {
    if has_infix(status, "Digest:"@) {
        Some(Ok(trim_start_all(status, "Digest: "@)))
    } else if has_infix(status, "error"@) {
        Some(Err(status))
    } else {
        None
    }
}

/// Reads one status message of a pull; see `pull_outcome`.
pub fn pull_status_outcome(status: &str) -> (r: Option<Result<String, String>>)
    ensures
        match r {
            Some(Ok(d)) => pull_outcome(status@) == Some(Ok::<Seq<char>, Seq<char>>(d@)),
            Some(Err(e)) => pull_outcome(status@) == Some(Err::<Seq<char>, Seq<char>>(e@)),
            None => pull_outcome(status@) is None,
        },
{
    if contains(status, "Digest:") {
        let digest = "Digest: ";
        proof {
            reveal_strlit("Digest: ");
        }
        Some(Ok(trim_start_matches(status, digest).to_owned()))
    } else if contains(status, "error") {
        Some(Err(status.to_owned()))
    } else {
        None
    }
}

/// How an import ends, read from one message of the engine: an update that
/// starts with `Loaded image ID: ` ends it with the id that follows, an error
/// ends it with that error, and anything else lets it go on.
pub open spec fn import_outcome(update: Option<Seq<char>>, error: Option<Seq<char>>) -> Option<
    Result<Seq<char>, Seq<char>>,
> {
    match update {
        Some(stream) => if has_prefix(stream, "Loaded image ID: "@) {
            Some(Ok(trim_start_all(stream, "Loaded image ID: "@)))
        } else {
            None
        },
        None => match error {
            Some(e) => Some(Err(e)),
            None => None,
        },
    }
}

/// A message of the engine during an import, as far as the import reads it.
#[derive(Debug)]
pub enum ImportMessage {
    Update { stream: String },
    Error { error: String },
    Other,
}

impl ImportMessage {
    pub open spec fn update_view(&self) -> Option<Seq<char>> {
        match self {
            ImportMessage::Update { stream } => Some(stream@),
            _ => None,
        }
    }

    pub open spec fn error_view(&self) -> Option<Seq<char>> {
        match self {
            ImportMessage::Error { error } => Some(error@),
            _ => None,
        }
    }
}

/// Reads one message of an import; see `import_outcome`.
pub fn import_message_outcome(m: &ImportMessage) -> (r: Option<Result<String, String>>)
    ensures
        match r {
            Some(Ok(id)) => import_outcome(m.update_view(), m.error_view()) == Some(
                Ok::<Seq<char>, Seq<char>>(id@),
            ),
            Some(Err(e)) => import_outcome(m.update_view(), m.error_view()) == Some(
                Err::<Seq<char>, Seq<char>>(e@),
            ),
            None => import_outcome(m.update_view(), m.error_view()) is None,
        },
{
    let loaded = "Loaded image ID: ";
    proof {
        reveal_strlit("Loaded image ID: ");
    }
    match m {
        ImportMessage::Update { stream } => {
            if starts_with(stream.as_str(), loaded) {
                Some(Ok(trim_start_matches(stream.as_str(), loaded).to_owned()))
            } else {
                None
            }
        },
        ImportMessage::Error { error } => Some(Err(error.clone())),
        ImportMessage::Other => None,
    }
}


/// Law: how a pull status ends a pull. `Digest: ` followed by a digest ends
/// it with that digest; a status that holds `error` (and no `Digest:`) ends it
/// with the whole status as the error; a status that holds neither lets the
/// pull go on.
pub proof fn lemma_pull_outcomes(d: Seq<char>, a: Seq<char>, b: Seq<char>, other: Seq<char>)
    ensures
        !has_prefix(d, "Digest: "@) ==> pull_outcome("Digest: "@ + d) == Some(
            Ok::<Seq<char>, Seq<char>>(d),
        ),
        !has_infix(a + "error"@ + b, "Digest:"@) ==> pull_outcome(a + "error"@ + b) == Some(
            Err::<Seq<char>, Seq<char>>(a + "error"@ + b),
        ),
        !has_infix(other, "Digest:"@) && !has_infix(other, "error"@) ==> pull_outcome(other) is None,
{
    reveal_strlit("Digest: ");
    reveal_strlit("Digest:");
    reveal_strlit("error");
    let p = "Digest: "@;
    let s = p + d;
    assert(s.subrange(0, 7) =~= "Digest:"@);
    assert(s.subrange(0, 0 + "Digest:"@.len() as int) == "Digest:"@);
    assert(has_infix(s, "Digest:"@));
    assert(s.take(8) =~= p);
    assert(has_prefix(s, p));
    assert(s.skip(8) =~= d);
    if !has_prefix(d, p) {
        assert(trim_start_all(d, p) == d);
        assert(trim_start_all(s, p) == trim_start_all(s.skip(8), p));
    }
    let t = a + "error"@ + b;
    assert(t.subrange(a.len() as int, a.len() as int + 5) =~= "error"@);
}

/// Law: how a message of the engine ends an import. An update
/// `Loaded image ID: ` followed by an id ends it with that id; an error ends
/// it with that error; an update without that prefix lets it go on.
pub proof fn lemma_import_outcomes(id: Seq<char>, error: Seq<char>, update: Seq<char>)
    ensures
        !has_prefix(id, "Loaded image ID: "@) ==> import_outcome(
            Some("Loaded image ID: "@ + id),
            None,
        ) == Some(Ok::<Seq<char>, Seq<char>>(id)),
        import_outcome(None, Some(error)) == Some(Err::<Seq<char>, Seq<char>>(error)),
        !has_prefix(update, "Loaded image ID: "@) ==> import_outcome(Some(update), None) is None,
{
    reveal_strlit("Loaded image ID: ");
    let p = "Loaded image ID: "@;
    let s = p + id;
    assert(s.take(p.len() as int) =~= p);
    assert(s.skip(p.len() as int) =~= id);
    if !has_prefix(id, p) {
        assert(trim_start_all(id, p) == id);
        assert(trim_start_all(s, p) == trim_start_all(s.skip(p.len() as int), p));
    }
}

} // verus!
