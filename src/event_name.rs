use vstd::prelude::*;

verus! {

/// The kind of row-level mutation that a change record describes.
#[derive(Debug, Clone, Copy, PartialEq, Eq, Structural)]
pub enum EventName {
    Insert,
    Modify,
    Remove,
}

/// The literal tag that the change source writes for each kind.
pub open spec fn tag_of(e: EventName) -> Seq<char> {
    match e {
        EventName::Insert => "INSERT"@,
        EventName::Modify => "MODIFY"@,
        EventName::Remove => "REMOVE"@,
    }
}

/// The kind named by a tag: an exact, case-sensitive match against the three tags.
pub open spec fn classify(tag: Seq<char>) -> Option<EventName> {
    if tag == "INSERT"@ {
        Some(EventName::Insert)
    } else if tag == "MODIFY"@ {
        Some(EventName::Modify)
    } else if tag == "REMOVE"@ {
        Some(EventName::Remove)
    } else {
        None
    }
}

impl EventName {
    /// Classifies an operation tag; any string but the three tags is refused.
    pub fn from_str(input: &str) -> (r: Result<EventName, ()>)
        ensures
            r == (match classify(input@) {
                Some(e) => Ok(e),
                None => Err(()),
            }),
    {
        let tag = input.to_owned();
        if tag == String::from_str("INSERT") {
            Ok(EventName::Insert)
        } else if tag == String::from_str("MODIFY") {
            Ok(EventName::Modify)
        } else if tag == String::from_str("REMOVE") {
            Ok(EventName::Remove)
        } else {
            Err(())
        }
    }

    /// The tag of this kind, as the change source writes it.
    pub fn as_str(&self) -> (r: &'static str)
        ensures
            r@ == tag_of(*self),
    {
        match self {
            EventName::Insert => "INSERT",
            EventName::Modify => "MODIFY",
            EventName::Remove => "REMOVE",
        }
    }
}

/// Each kind's tag classifies back to that kind.
pub proof fn lemma_classify_tag(e: EventName)
    ensures
        classify(tag_of(e)) == Some(e),
{
    reveal_strlit("INSERT");
    reveal_strlit("MODIFY");
    reveal_strlit("REMOVE");
    assert("INSERT"@[0] != "MODIFY"@[0]);
    assert("INSERT"@[0] != "REMOVE"@[0]);
    assert("MODIFY"@[0] != "REMOVE"@[0]);
}

/// Classification succeeds exactly on the three tags.
pub proof fn lemma_classify_exact(tag: Seq<char>)
    ensures
        classify(tag) is Some <==> (tag == tag_of(EventName::Insert) || tag == tag_of(
            EventName::Modify,
        ) || tag == tag_of(EventName::Remove)),
        classify(tag) matches Some(e) ==> tag == tag_of(e),
{
}

} // verus!
