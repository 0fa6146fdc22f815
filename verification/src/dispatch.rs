//! Planning the periodic actuator-control cycle: for every room with a
//! configured heating actuator, the command to send to its endpoint.
//!
//! A manual power level `level` becomes a duty-cycle command that keeps the
//! heater on for `level * 600` seconds (level 6 is the full hour-long
//! period); level 0 yields a zero-duration command that is still sent. The
//! automatic mode has no implemented behaviour: planning it yields a defined
//! error entry, so a cycle neither crashes nor silently skips it. Sending
//! the planned requests over the network is the application's job.

use vstd::prelude::*;

use crate::rooms::{rooms_view, ActorView, HeatingState, Room, RoomView};

verus! {

/// Why a planned dispatch entry carries no request.
#[derive(Clone, Copy, PartialEq, Eq, Structural, Debug)]
pub enum DispatchError {
    /// The actuator is configured in automatic mode, which is declared but
    /// not implemented.
    AutoNotImplemented,
}

/// One command to issue: ask the actuator at `address` to turn on for
/// `timer_seconds` seconds.
#[derive(Debug)]
pub struct ActuatorRequest {
    pub address: String,
    pub timer_seconds: u32,
}

/// Mathematical image of an `ActuatorRequest`.
pub struct RequestView {
    pub address: Seq<char>,
    pub timer_seconds: u32,
}

impl View for ActuatorRequest {
    type V = RequestView;

    open spec fn view(&self) -> RequestView {
        RequestView { address: self.address@, timer_seconds: self.timer_seconds }
    }
}

/// The on-duration encoding a manual power level: `level * 600` seconds.
pub open spec fn spec_manual_timer(level: u8) -> u32 {
    (level * 600) as u32
}

/// The on-duration for a manual power level, computed as the level's share
/// `level / 6` of the hour-long dispatch period.
pub fn manual_timer_seconds(level: u8) -> (r: u32)
    ensures
        r == spec_manual_timer(level),
{
    let ticks: u32 = level as u32 * 3600;
    assert(level as u32 * 3600 == 6 * (level as u32 * 600)) by (nonlinear_arith);
    let r = ticks / 6;
    assert(r == level * 600) by (nonlinear_arith)
        requires
            ticks == 6 * (level as u32 * 600),
            r == ticks / 6,
    ;
    r
}

/// What one actuator's dispatch entry is: a duty-cycle request for a manual
/// level, the not-implemented error for the automatic mode.
pub open spec fn actor_request(actor: ActorView) -> Result<RequestView, DispatchError> {
    match actor.state {
        HeatingState::Manual(level) => Ok(
            RequestView { address: actor.address, timer_seconds: spec_manual_timer(level) },
        ),
        HeatingState::Auto(_) => Err(DispatchError::AutoNotImplemented),
    }
}

/// A room's contribution to a dispatch cycle: nothing without an actuator,
/// otherwise its actuator's entry.
pub open spec fn room_dispatch(room: RoomView) -> Seq<Result<RequestView, DispatchError>> {
    match room.actor {
        None => Seq::empty(),
        Some(actor) => seq![actor_request(actor)],
    }
}

/// The plan of one dispatch cycle: each room's contribution, in room order.
pub open spec fn spec_update_actors(rooms: Seq<RoomView>) -> Seq<
    Result<RequestView, DispatchError>,
>
    decreases rooms.len(),
{
    if rooms.len() == 0 {
        Seq::empty()
    } else {
        spec_update_actors(rooms.drop_last()) + room_dispatch(rooms.last())
    }
}

/// Mathematical image of a planned entry.
pub open spec fn entry_view(r: Result<ActuatorRequest, DispatchError>) -> Result<
    RequestView,
    DispatchError,
> {
    match r {
        Ok(q) => Ok(q@),
        Err(e) => Err(e),
    }
}

/// The images of a vector of planned entries.
pub open spec fn entries_view(s: Seq<Result<ActuatorRequest, DispatchError>>) -> Seq<
    Result<RequestView, DispatchError>,
> {
    s.map_values(|r: Result<ActuatorRequest, DispatchError>| entry_view(r))
}

/// Plan one dispatch cycle over a snapshot of the registry, as the periodic
/// actuator loop does each period: one entry per room with a configured
/// actuator, in room order. The caller sends the `Ok` requests over the
/// network (outside any lock) and reports the `Err` entries.
pub fn update_actors(rooms: &Vec<Room>) -> (r: Vec<Result<ActuatorRequest, DispatchError>>)
    ensures
        entries_view(r@) == spec_update_actors(rooms_view(rooms@)),
{
    let ghost rv = rooms_view(rooms@);
    let mut out: Vec<Result<ActuatorRequest, DispatchError>> = Vec::new();
    proof {
        assert(entries_view(out@) =~= spec_update_actors(rv.take(0)));
    }
    let mut i: usize = 0;
    while i < rooms.len()
        invariant
            i <= rooms@.len(),
            rv == rooms_view(rooms@),
            entries_view(out@) == spec_update_actors(rv.take(i as int)),
        decreases rooms@.len() - i,
    {
        let ghost out0 = out@;
        match &rooms[i].actor {
            None => {},
            Some(actor) => {
                match actor.state {
                    HeatingState::Manual(level) => {
                        let timer_seconds = manual_timer_seconds(level);
                        out.push(Ok(ActuatorRequest { address: actor.address.clone(), timer_seconds }));
                    },
                    HeatingState::Auto(_) => {
                        out.push(Err(DispatchError::AutoNotImplemented));
                    },
                }
            },
        }
        proof {
            assert(rv[i as int] == rooms@[i as int]@);
            assert(rv.take(i + 1).drop_last() =~= rv.take(i as int));
            assert(rv.take(i + 1).last() == rv[i as int]);
            assert(entries_view(out@) =~= spec_update_actors(rv.take(i + 1)));
        }
        i += 1;
    }
    proof {
        assert(rv.take(rooms@.len() as int) =~= rv);
    }
    out
}

/// Dispatching an automatic-mode actuator is the defined not-implemented
/// error, never a request and never a silent omission.
pub proof fn lemma_auto_dispatch_is_error(actor: ActorView)
    requires
        actor.state matches HeatingState::Auto(_),
    ensures
        actor_request(actor) == Err::<RequestView, DispatchError>(
            DispatchError::AutoNotImplemented,
        ),
{
}

/// Dispatching a manual-mode actuator always plans a request to that
/// actuator's endpoint, on for `level * 600` seconds.
pub proof fn lemma_manual_dispatch_timer(actor: ActorView, level: u8)
    requires
        actor.state == HeatingState::Manual(level),
    ensures
        actor_request(actor) == Ok::<RequestView, DispatchError>(
            RequestView { address: actor.address, timer_seconds: (level * 600) as u32 },
        ),
{
}

} // verus!
