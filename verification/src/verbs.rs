//! The verbs of signals and which of them page a sleeping agent.
use vstd::prelude::*;
use crate::text::{eq_ignore_ascii_case, lower, same_ignoring_case};

verus! {

/// What a verb asks of the recipient.
#[derive(Debug, Clone, Copy, PartialEq, Eq, Structural)]
pub enum VerbShape {
    /// The recipient is needed: the verb wakes a sleeping agent.
    Wake,
    /// The signal is for the record and wakes nobody.
    Record,
}

/// A verb and its shape.
#[derive(Debug, Clone)]
pub struct Verb {
    pub name: String,
    pub shape: VerbShape,
}

/// The verbs that are known, with their shapes.
#[derive(Debug, Clone)]
pub struct VerbManifest {
    pub verbs: Vec<Verb>,
}

/// The verbs that mean "I need you to act".
pub const WAKE_WORTHY_VERBS: [&'static str; 8] = [
    "question",
    "request",
    "handoff",
    "correction",
    "proposal",
    "decision",
    "rfc",
    "routing",
];

/// Verbs that ship for the record alone: they reach a live session and page
/// nobody.
pub const RECORD_VERBS: [&'static str; 5] = ["announce", "ack", "info", "answer", "review"];

/// Whether `verb` is one of the verbs that wake out of the box.
pub open spec fn is_canonical_wake_verb(verb: Seq<char>) -> bool {
    exists|i: int|
        0 <= i < WAKE_WORTHY_VERBS@.len() && same_ignoring_case(
            #[trigger] WAKE_WORTHY_VERBS@[i]@,
            verb,
        )
}

impl VerbManifest {
    /// Whether `verb` is listed as one that wakes. Case does not matter.
    pub open spec fn wakes(&self, verb: Seq<char>) -> bool {
        exists|i: int|
            0 <= i < self.verbs@.len() && #[trigger] self.verbs@[i].shape == VerbShape::Wake
                && same_ignoring_case(self.verbs@[i].name@, verb)
    }

    /// Whether `verb` wakes a sleeping recipient.
    pub fn is_wake_worthy(&self, verb: &str) -> (yes: bool)
        ensures
            yes == self.wakes(verb@),
    {
        for i in 0..self.verbs.len()
            invariant
                forall|j: int|
                    0 <= j < i ==> !(#[trigger] self.verbs@[j].shape == VerbShape::Wake
                        && same_ignoring_case(self.verbs@[j].name@, verb@)),
        {
            if self.verbs[i].shape == VerbShape::Wake && eq_ignore_ascii_case(
                self.verbs[i].name.as_str(),
                verb,
            ) {
                return true;
            }
        }
        false
    }

    /// The manifest with the verbs that ship with the watcher.
    pub fn builtin_default() -> (manifest: Self)
        ensures
            forall|verb: Seq<char>| #[trigger]
                manifest.wakes(verb) <==> is_canonical_wake_verb(verb),
    {
        let mut verbs: Vec<Verb> = Vec::new();
        for i in 0..WAKE_WORTHY_VERBS.len()
            invariant
                WAKE_WORTHY_VERBS@.len() == 8,
                verbs@.len() == i,
                forall|j: int|
                    0 <= j < i ==> (#[trigger] verbs@[j]).shape == VerbShape::Wake && verbs@[j].name@
                        == WAKE_WORTHY_VERBS@[j]@,
        {
            verbs.push(Verb { name: WAKE_WORTHY_VERBS[i].to_string(), shape: VerbShape::Wake });
        }
        let ghost waking = verbs@;
        for i in 0..RECORD_VERBS.len()
            invariant
                verbs@.len() == 8 + i,
                waking.len() == 8,
                forall|j: int| 0 <= j < 8 ==> #[trigger] verbs@[j] == waking[j],
                forall|j: int|
                    8 <= j < 8 + i ==> (#[trigger] verbs@[j]).shape == VerbShape::Record,
        {
            verbs.push(Verb { name: RECORD_VERBS[i].to_string(), shape: VerbShape::Record });
        }
        let manifest = VerbManifest { verbs };
        assert forall|verb: Seq<char>| #[trigger] manifest.wakes(verb) implies is_canonical_wake_verb(
            verb,
        ) by {
            let i = choose|i: int|
                0 <= i < manifest.verbs@.len() && #[trigger] manifest.verbs@[i].shape
                    == VerbShape::Wake && same_ignoring_case(manifest.verbs@[i].name@, verb);
            assert(manifest.verbs@[i] == waking[i]);
            assert(same_ignoring_case(WAKE_WORTHY_VERBS@[i]@, verb));
        }
        assert forall|verb: Seq<char>| is_canonical_wake_verb(verb) implies #[trigger] manifest.wakes(
            verb,
        ) by {
            let i = choose|i: int|
                0 <= i < WAKE_WORTHY_VERBS@.len() && same_ignoring_case(
                    #[trigger] WAKE_WORTHY_VERBS@[i]@,
                    verb,
                );
            assert(manifest.verbs@[i] == waking[i]);
            assert(manifest.verbs@[i].shape == VerbShape::Wake);
        }
        manifest
    }
}

/// Out of the box, no verb that ships for the record wakes anybody, whatever
/// its case.
pub proof fn law_record_verbs_never_wake(i: int, verb: Seq<char>)
    requires
        0 <= i < RECORD_VERBS@.len(),
        same_ignoring_case(RECORD_VERBS@[i]@, verb),
    ensures
        !is_canonical_wake_verb(verb),
{
    reveal_strlit("announce");
    reveal_strlit("ack");
    reveal_strlit("info");
    reveal_strlit("answer");
    reveal_strlit("review");
    reveal_strlit("question");
    reveal_strlit("request");
    reveal_strlit("handoff");
    reveal_strlit("correction");
    reveal_strlit("proposal");
    reveal_strlit("decision");
    reveal_strlit("rfc");
    reveal_strlit("routing");
    assert forall|j: int| 0 <= j < WAKE_WORTHY_VERBS@.len() implies !same_ignoring_case(
        #[trigger] WAKE_WORTHY_VERBS@[j]@,
        verb,
    ) by {
        let record = RECORD_VERBS@[i]@;
        let waking = WAKE_WORTHY_VERBS@[j]@;
        if same_ignoring_case(waking, verb) {
            assert(lower(record).len() == lower(waking).len());
            assert(lower(record)[0] == lower(waking)[0]);
        }
    }
}

/// A verb wakes exactly if the manifest lists it, at whichever place and in
/// whichever case, with the shape of one that wakes.
pub proof fn law_verb_wakes_exactly_if_listed(manifest: &VerbManifest, verb: &str, yes: bool)
    requires
        call_ensures(VerbManifest::is_wake_worthy, (manifest, verb), yes),
    ensures
        forall|i: int|
            0 <= i < manifest.verbs@.len() && (#[trigger] manifest.verbs@[i]).shape
                == VerbShape::Wake && lower(manifest.verbs@[i].name@) == lower(verb@) ==> yes,
        (forall|i: int|
            0 <= i < manifest.verbs@.len() ==> (#[trigger] manifest.verbs@[i]).shape
                != VerbShape::Wake || lower(manifest.verbs@[i].name@) != lower(verb@)) ==> !yes,
{
    assert forall|i: int|
        0 <= i < manifest.verbs@.len() && (#[trigger] manifest.verbs@[i]).shape == VerbShape::Wake
            && lower(manifest.verbs@[i].name@) == lower(verb@) implies yes by {
        assert(manifest.verbs@[i].shape == VerbShape::Wake && same_ignoring_case(
            manifest.verbs@[i].name@,
            verb@,
        ));
    }
}

/// Out of the box exactly these verbs wake, in whichever case: question,
/// request, handoff, correction, proposal, decision, rfc and routing.
pub proof fn law_shipped_verbs_that_wake(manifest: VerbManifest, verb: Seq<char>)
    requires
        call_ensures(VerbManifest::builtin_default, (), manifest),
    ensures
        manifest.wakes(verb) <==> lower(verb) == lower("question"@) || lower(verb) == lower(
            "request"@,
        ) || lower(verb) == lower("handoff"@) || lower(verb) == lower("correction"@) || lower(verb)
            == lower("proposal"@) || lower(verb) == lower("decision"@) || lower(verb) == lower(
            "rfc"@,
        ) || lower(verb) == lower("routing"@),
{
    assert(manifest.wakes(verb) <==> is_canonical_wake_verb(verb));
    if is_canonical_wake_verb(verb) {
        let i = choose|i: int|
            0 <= i < WAKE_WORTHY_VERBS@.len() && same_ignoring_case(
                #[trigger] WAKE_WORTHY_VERBS@[i]@,
                verb,
            );
        assert(i == 0 || i == 1 || i == 2 || i == 3 || i == 4 || i == 5 || i == 6 || i == 7);
    }
    assert(WAKE_WORTHY_VERBS@[0]@ == "question"@);
    assert(WAKE_WORTHY_VERBS@[1]@ == "request"@);
    assert(WAKE_WORTHY_VERBS@[2]@ == "handoff"@);
    assert(WAKE_WORTHY_VERBS@[3]@ == "correction"@);
    assert(WAKE_WORTHY_VERBS@[4]@ == "proposal"@);
    assert(WAKE_WORTHY_VERBS@[5]@ == "decision"@);
    assert(WAKE_WORTHY_VERBS@[6]@ == "rfc"@);
    assert(WAKE_WORTHY_VERBS@[7]@ == "routing"@);
}

} // verus!
