use vstd::prelude::*;

verus! {

/// What the player asks of the map generator.
#[derive(PartialEq, Eq, Structural, Clone, Copy, Debug)]
pub enum MapGenControlEvent {
    /// Decide one more tile.
    Step,
    /// Decide one more tile every frame from now on.
    AutoStep,
    /// Start again and decide every tile now.
    Build,
    /// Throw the map away.
    Reset,
}

/// What to do with the map generator this frame.
#[derive(PartialEq, Eq, Structural, Clone, Copy, Debug)]
pub struct StepPlan {
    /// Whether to decide a tile.
    pub step: bool,
    /// Whether to go on deciding tiles until the map is done.
    pub build: bool,
    /// Whether to throw the map away.
    pub reset: bool,
}

/// Whether `events` holds `e`.
pub open spec fn asked(events: Seq<MapGenControlEvent>, e: MapGenControlEvent) -> bool {
    events.contains(e)
}

/// Reads the frame's events. A reset throws the map away, and with it any
/// stepping every frame, whatever else the frame asks. Otherwise an
/// auto-step request turns stepping every frame on, and the generator steps
/// when asked to step or build, or when it steps every frame.
pub fn plan_steps(events: &[MapGenControlEvent], auto_step: &mut bool) -> (r: StepPlan)
    ensures
        r.reset == asked(events@, MapGenControlEvent::Reset),
        r.reset ==> !*final(auto_step) && !r.step && !r.build,
        !r.reset ==> *final(auto_step) == (*old(auto_step) || asked(events@, MapGenControlEvent::AutoStep)),
        !r.reset ==> r.build == asked(events@, MapGenControlEvent::Build),
        !r.reset ==> r.step == (r.build || asked(events@, MapGenControlEvent::Step) || *final(auto_step)),
{
    let mut step = false;
    let mut build = false;
    let mut reset = false;
    let mut i: usize = 0;
    while i < events.len()
        invariant
            i <= events@.len(),
            *auto_step == (*old(auto_step) || asked(events@.take(i as int), MapGenControlEvent::AutoStep)),
            build == asked(events@.take(i as int), MapGenControlEvent::Build),
            step == asked(events@.take(i as int), MapGenControlEvent::Step),
            reset == asked(events@.take(i as int), MapGenControlEvent::Reset),
        decreases events@.len() - i,
    {
        proof {
            assert(events@.take(i + 1) =~= events@.take(i as int).push(events@[i as int]));
            assert forall|e: MapGenControlEvent| asked(events@.take(i + 1), e) == (asked(events@.take(i as int), e)
                || events@[i as int] == e) by {
                let t = events@.take(i + 1);
                if t.contains(e) {
                    let j = choose|j: int| 0 <= j < t.len() && t[j] == e;
                    if j < i {
                        assert(events@.take(i as int)[j] == e);
                    }
                }
                if events@.take(i as int).contains(e) {
                    let j = choose|j: int| 0 <= j < i && events@.take(i as int)[j] == e;
                    assert(t[j] == e);
                }
                if events@[i as int] == e {
                    assert(t[i as int] == e);
                }
            }
        }
        match events[i] {
            MapGenControlEvent::Step => step = true,
            MapGenControlEvent::AutoStep => *auto_step = true,
            MapGenControlEvent::Build => build = true,
            MapGenControlEvent::Reset => reset = true,
        }
        i = i + 1;
    }
    assert(events@.take(events@.len() as int) =~= events@);
    if reset {
        *auto_step = false;
        return StepPlan { step: false, build: false, reset: true };
    }
    StepPlan { step: build || step || *auto_step, build, reset: false }
}

/// Whether to decide another tile after one was decided: only while
/// building, and until the map is done.
pub fn keep_building(build: bool, all_done: bool) -> (r: bool)
    ensures
        r == (build && !all_done),
{
    build && !all_done
}

} // verus!
