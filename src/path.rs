use vstd::prelude::*;

verus! {

/// What one bounce of a path met: no geometry, a surface that absorbed the
/// ray, or a surface that scattered it on.
#[derive(Clone, Copy, PartialEq, Eq, Structural, Debug)]
pub enum Interaction {
    Miss,
    Absorbed,
    Scattered,
}

/// How a path ended. Only a path that escaped to the sky gathers light; the
/// other two contribute black.
#[derive(Clone, Copy, PartialEq, Eq, Structural, Debug)]
pub enum PathEnd {
    /// The bounce budget ran out before the path left the scene.
    Exhausted,
    /// A surface absorbed the path.
    Absorbed,
    /// The path left the scene and sees the sky.
    Escaped,
}

/// How a path with a budget of `depth` bounces ends after it met `events`, in
/// order; `None` while it still waits for the next scene query.
pub open spec fn trace(depth: int, events: Seq<Interaction>) -> Option<PathEnd>
    decreases events.len(),
{
    if depth <= 0 {
        Some(PathEnd::Exhausted)
    } else if events.len() == 0 {
        None
    } else {
        match events[0] {
            Interaction::Miss => Some(PathEnd::Escaped),
            Interaction::Absorbed => Some(PathEnd::Absorbed),
            Interaction::Scattered => trace(depth - 1, events.drop_first()),
        }
    }
}

/// How a path that may still make `remaining` scene queries goes on after the
/// next query met `ev`.
pub open spec fn step(remaining: int, ev: Interaction) -> Option<PathEnd> {
    match ev {
        Interaction::Miss => Some(PathEnd::Escaped),
        Interaction::Absorbed => Some(PathEnd::Absorbed),
        Interaction::Scattered => if remaining - 1 <= 0 {
            Some(PathEnd::Exhausted)
        } else {
            None
        },
    }
}

/// Whether a path that ended so brings any light back.
pub open spec fn gathers_light(end: PathEnd) -> bool {
    end == PathEnd::Escaped
}

proof fn lemma_trace_push(depth: int, events: Seq<Interaction>, ev: Interaction)
    requires
        trace(depth, events) is None,
    ensures
        depth - events.len() > 0,
        forall|k: int| 0 <= k < events.len() ==> events[k] == Interaction::Scattered,
        trace(depth, events.push(ev)) == step(depth - events.len(), ev),
    decreases events.len(),
{
    if events.len() == 0 {
        assert(events.push(ev).drop_first() =~= events);
        assert(events.push(ev)[0] == ev);
        assert(trace(depth - 1, events) == if depth - 1 <= 0 {
            Some(PathEnd::Exhausted)
        } else {
            None
        });
    } else {
        let rest = events.drop_first();
        lemma_trace_push(depth - 1, rest, ev);
        assert(events.push(ev).drop_first() =~= rest.push(ev));
        assert(events.push(ev)[0] == events[0]);
        assert(events[0] == Interaction::Scattered);
        assert(trace(depth, events.push(ev)) == trace(depth - 1, rest.push(ev)));
        assert forall|k: int| 0 <= k < events.len() implies events[k]
            == Interaction::Scattered by {
            if k > 0 {
                assert(events[k] == rest[k - 1]);
            }
        }
    }
}

/// A path with no bounce budget left is black, whatever the ray and the scene.
pub proof fn lemma_no_budget_is_black(depth: int, events: Seq<Interaction>)
    requires
        depth <= 0,
    ensures
        trace(depth, events) == Some(PathEnd::Exhausted),
        !gathers_light(PathEnd::Exhausted),
{
}

/// A path that still has budget and meets no geometry at its first query
/// escapes at once: it sees the sky along the camera ray itself, with no
/// attenuation.
pub proof fn lemma_first_miss_escapes(depth: int)
    requires
        depth > 0,
    ensures
        trace(depth, seq![Interaction::Miss]) == Some(PathEnd::Escaped),
        gathers_light(PathEnd::Escaped),
{
}

/// A path ends after at most `depth` scene queries.
pub proof fn lemma_path_ends_within_budget(depth: int, events: Seq<Interaction>)
    requires
        events.len() >= depth,
    ensures
        trace(depth, events) is Some,
    decreases events.len(),
{
    if depth > 0 && events.len() > 0 && events[0] == Interaction::Scattered {
        lemma_path_ends_within_budget(depth - 1, events.drop_first());
    }
}

/// The bounce-budget bookkeeping of one camera ray: how many scene queries it
/// may still make and how it ended.
pub struct Path {
    remaining: i32,
    end: Option<PathEnd>,
    depth: Ghost<int>,
    events: Ghost<Seq<Interaction>>,
}

impl Path {
    /// The budget the path was started with.
    pub closed spec fn depth(&self) -> int {
        self.depth@
    }

    /// What the path met so far, in order.
    pub closed spec fn events(&self) -> Seq<Interaction> {
        self.events@
    }

    /// How many scene queries the path may still make.
    pub open spec fn remaining(&self) -> int {
        self.depth() - self.events().len()
    }

    pub closed spec fn well_formed(&self) -> bool {
        &&& self.end == trace(self.depth@, self.events@)
        &&& self.end is None ==> self.remaining == self.depth@ - self.events@.len()
    }

    /// A path with a budget of `depth` bounces; with `depth <= 0` it has
    /// already ended.
    pub fn new(depth: i32) -> (p: Path)
        ensures
            p.well_formed(),
            p.depth() == depth as int,
            p.events() == Seq::<Interaction>::empty(),
            trace(p.depth(), p.events()) == if depth <= 0 {
                Some(PathEnd::Exhausted)
            } else {
                None
            },
    {
        let end = if depth <= 0 {
            Some(PathEnd::Exhausted)
        } else {
            None
        };
        Path { remaining: depth, end, depth: Ghost(depth as int), events: Ghost(Seq::empty()) }
    }

    /// How the path ended, or `None` while a scene query is still owed.
    pub fn end(&self) -> (r: Option<PathEnd>)
        requires
            self.well_formed(),
        ensures
            r == trace(self.depth(), self.events()),
    {
        self.end
    }

    /// Records what the owed scene query met.
    pub fn record(&mut self, ev: Interaction)
        requires
            old(self).well_formed(),
            trace(old(self).depth(), old(self).events()) is None,
        ensures
            final(self).well_formed(),
            final(self).depth() == old(self).depth(),
            final(self).events() == old(self).events().push(ev),
            trace(final(self).depth(), final(self).events()) == step(old(self).remaining(), ev),
    {
        proof {
            lemma_trace_push(self.depth@, self.events@, ev);
        }
        self.events = Ghost(self.events@.push(ev));
        match ev {
            Interaction::Miss => {
                self.end = Some(PathEnd::Escaped);
            },
            Interaction::Absorbed => {
                self.end = Some(PathEnd::Absorbed);
            },
            Interaction::Scattered => {
                self.remaining = self.remaining - 1;
                if self.remaining <= 0 {
                    self.end = Some(PathEnd::Exhausted);
                }
            },
        }
    }
}

} // verus!
