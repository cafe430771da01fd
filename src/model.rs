//! The model registry and its once-per-name report of missing models.
use vstd::prelude::*;

use crate::names::{NameMap, WarnedNames};

verus! {

/// Something that can draw itself.
pub trait Model {
    fn draw(&self);
}

/// What a draw request does to the set of names already reported missing:
/// whether a warning is due now, and the new set.
pub open spec fn report_missing(known: bool, warned: Set<Seq<char>>, name: Seq<char>) -> (
    bool,
    Set<Seq<char>>,
) {
    if known {
        (false, warned)
    } else {
        (!warned.contains(name), warned.insert(name))
    }
}

/// Models by name, and the names that were asked for but not found.
pub struct ModelManager<M> {
    models: NameMap<M>,
    missing: WarnedNames,
}

impl<M> ModelManager<M> {
    pub closed spec fn wf(&self) -> bool {
        self.models.wf() && self.missing.wf()
    }

    /// The registered models by name.
    pub closed spec fn models(&self) -> Map<Seq<char>, M> {
        self.models@
    }

    /// The names already reported missing.
    pub closed spec fn warned(&self) -> Set<Seq<char>> {
        self.missing@
    }

    /// An empty manager.
    pub fn new() -> (r: Self)
        ensures
            r.wf(),
            r.models() == Map::<Seq<char>, M>::empty(),
            r.warned() == Set::<Seq<char>>::empty(),
    {
        let r = ModelManager { models: NameMap::new(), missing: WarnedNames::new() };
        assert(r.warned() =~= Set::<Seq<char>>::empty());
        r
    }

    /// Registers `model` as `name`, replacing any model of that name.
    pub fn add(&mut self, name: &str, model: M)
        requires
            old(self).wf(),
        ensures
            final(self).wf(),
            final(self).models() == old(self).models().insert(name@, model),
            final(self).warned() == old(self).warned(),
    {
        self.models.insert(name, model);
    }

    /// The model called `name`, if any.
    pub fn get(&self, name: &str) -> (r: Option<&M>)
        requires
            self.wf(),
        ensures
            r is Some == self.models().contains_key(name@),
            r is Some ==> *r->0 == self.models()[name@],
    {
        self.models.get(name)
    }

    /// Notes that `name` was asked for; says whether a warning is due, which is
    /// exactly when no model has that name and it was not reported before.
    pub fn note_request(&mut self, name: &str) -> (r: bool)
        requires
            old(self).wf(),
        ensures
            final(self).wf(),
            final(self).models() == old(self).models(),
            (r, final(self).warned()) == report_missing(
                old(self).models().contains_key(name@),
                old(self).warned(),
                name@,
            ),
    {
        if self.models.contains(name) {
            false
        } else {
            self.missing.first_report(name)
        }
    }
}

impl<M: Model> ModelManager<M> {
    /// Draws the model called `name`. A missing model draws nothing; the result says
    /// whether a warning is due, which happens once per missing name.
    pub fn draw_model(&mut self, name: &str) -> (r: bool)
        requires
            old(self).wf(),
        ensures
            final(self).wf(),
            final(self).models() == old(self).models(),
            (r, final(self).warned()) == report_missing(
                old(self).models().contains_key(name@),
                old(self).warned(),
                name@,
            ),
    {
        match self.models.get(name) {
            Some(model) => {
                model.draw();
                false
            },
            None => self.note_request(name),
        }
    }
}

/// Asking twice in a row for the same name warns at most once: the second request
/// is silent and changes nothing, and the first warns only if the name was not
/// reported before.
pub proof fn lemma_missing_reported_once(known: bool, warned: Set<Seq<char>>, name: Seq<char>)
    ensures
        ({
            let (first, after) = report_missing(known, warned, name);
            let (second, again) = report_missing(known, after, name);
            &&& !second
            &&& again == after
            &&& first ==> !warned.contains(name)
        }),
{
    let (_, after) = report_missing(known, warned, name);
    if !known {
        assert(after.insert(name) =~= after);
    }
}

/// The number of warnings given over `k` requests in a row for `name`, and the
/// names reported missing afterwards.
pub open spec fn repeated_reports(known: bool, warned: Set<Seq<char>>, name: Seq<char>, k: nat) -> (
    nat,
    Set<Seq<char>>,
)
    decreases k,
{
    if k == 0 {
        (0, warned)
    } else {
        let (count, before) = repeated_reports(known, warned, name, (k - 1) as nat);
        let (warn, after) = report_missing(known, before, name);
        (count + if warn {
            1nat
        } else {
            0nat
        }, after)
    }
}

/// Over any number `k >= 1` of requests in a row for the same name, exactly one
/// warning is given if no model has that name and it was not reported before, and
/// none otherwise.
pub proof fn lemma_missing_reported_once_over(
    known: bool,
    warned: Set<Seq<char>>,
    name: Seq<char>,
    k: nat,
)
    requires
        k >= 1,
    ensures
        repeated_reports(known, warned, name, k).0 == if !known && !warned.contains(name) {
            1nat
        } else {
            0nat
        },
        !known ==> repeated_reports(known, warned, name, k).1 == warned.insert(name),
        known ==> repeated_reports(known, warned, name, k).1 == warned,
    decreases k,
{
    if k > 1 {
        lemma_missing_reported_once_over(known, warned, name, (k - 1) as nat);
        let before = repeated_reports(known, warned, name, (k - 1) as nat).1;
        if !known {
            assert(before.contains(name));
            assert(before.insert(name) =~= before);
        }
    } else {
        assert(repeated_reports(known, warned, name, 0).1 == warned);
    }
}

} // verus!
