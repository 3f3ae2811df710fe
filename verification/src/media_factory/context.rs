//! The state of a media factory, and what it does on each message.

use std::collections::HashMap;

use vstd::prelude::*;

use crate::collections::map_keys;
use crate::error::{Error, StatusCode};
use crate::time::{elapsed, time_since};

verus! {

broadcast use vstd::std_specs::hash::group_hash_axioms;

/// A media that was spawned. Times are in nanoseconds.
#[derive(Clone, Copy, PartialEq, Eq, Structural, Debug)]
pub struct SpawnedMedia {
    /// How long the media may be idle before it is shut down.
    pub idle_timeout: Option<u64>,
    /// Since when the media is idle, if it is.
    pub idle_since: Option<u64>,
}

impl SpawnedMedia {
    /// Whether the media was idle for too long.
    pub open spec fn spec_timed_out(self, now: u64) -> bool {
        match (self.idle_since, self.idle_timeout) {
            (Some(since), Some(timeout)) => elapsed(since, now) >= timeout,
            _ => false,
        }
    }

    /// Whether the media was idle for too long.
    pub fn timed_out(&self, now: u64) -> (r: bool)
        ensures
            r == self.spec_timed_out(now),
    {
        match (self.idle_since, self.idle_timeout) {
            (Some(since), Some(timeout)) => time_since(since, now) >= timeout,
            _ => false,
        }
    }
}

/// What is to be done when a media says whether it is idle. The media factory itself is asked for
/// the answer either way.
#[derive(Clone, Copy, PartialEq, Eq, Structural, Debug)]
pub enum IdleChange {
    /// The media is to be checked after this time if there is one.
    Idle(Option<u64>),
    /// The media is in use, and is not to be checked.
    InUse,
}

/// A media that is idle from `now` on, or not.
pub open spec fn with_idle(media: SpawnedMedia, idle: bool, now: u64) -> SpawnedMedia {
    SpawnedMedia {
        idle_since: if idle {
            Some(now)
        } else {
            None
        },
        ..media
    }
}

/// The medias after a check of one of them.
pub open spec fn checked(medias: Map<u128, SpawnedMedia>, media_id: u128, now: u64) -> Map<
    u128,
    SpawnedMedia,
> {
    if medias.dom().contains(media_id) && medias[media_id].spec_timed_out(now) {
        medias.remove(media_id)
    } else {
        medias
    }
}

/// The medias after one of them said whether it is idle.
pub open spec fn idled(
    medias: Map<u128, SpawnedMedia>,
    media_id: u128,
    idle: bool,
    now: u64,
) -> Map<u128, SpawnedMedia> {
    if medias.dom().contains(media_id) {
        medias.insert(media_id, with_idle(medias[media_id], idle, now))
    } else {
        medias
    }
}

/// Whether a media is running.
pub open spec fn running(medias: Map<u128, SpawnedMedia>, media_id: u128) -> Result<(), Error> {
    if medias.dom().contains(media_id) {
        Ok(())
    } else {
        Err(Error::spec_status(StatusCode::NotFound))
    }
}

/// What is to be done when a media says whether it is idle.
pub open spec fn idle_change(medias: Map<u128, SpawnedMedia>, media_id: u128, idle: bool) -> Result<
    IdleChange,
    Error,
> {
    if !medias.dom().contains(media_id) {
        Err(Error::spec_internal())
    } else if idle {
        Ok(IdleChange::Idle(medias[media_id].idle_timeout))
    } else {
        Ok(IdleChange::InUse)
    }
}

/// The medias after another one was spawned: it is idle until a session is configured for it.
pub open spec fn spawned(
    medias: Map<u128, SpawnedMedia>,
    media_id: u128,
    idle_timeout: Option<u64>,
    now: u64,
) -> Map<u128, SpawnedMedia> {
    medias.insert(media_id, SpawnedMedia { idle_timeout, idle_since: Some(now) })
}

/// The state of a media factory.
pub struct Context {
    pub id: u128,
    /// Spawned media with their optional idle timeout and the moment when they went idle.
    pub medias: HashMap<u128, SpawnedMedia>,
}

impl Context {
    /// The medias that were spawned and are still running.
    pub open spec fn view(self) -> Map<u128, SpawnedMedia> {
        self.medias@
    }

    /// A media factory without medias.
    pub fn new(id: u128) -> (r: Context)
        ensures
            r.id == id,
            r@ == Map::<u128, SpawnedMedia>::empty(),
    {
        Context { id, medias: HashMap::new() }
    }

    /// Spawns a new media. If it has an idle timeout, it is to be checked after that time.
    ///
    /// The new media will be shut down automatically together with the media factory or can be
    /// shut down explicitly before, or after being idle for the configured time.
    ///
    /// Newly spawned medias are idle until a session is configured for them so an idle timeout of
    /// multiple seconds is usually a good idea.
    pub fn spawn_media(&mut self, media_id: u128, idle_timeout: Option<u64>, now: u64)
        ensures
            final(self).id == old(self).id,
            final(self)@ == spawned(old(self)@, media_id, idle_timeout, now),
    {
        self.medias.insert(media_id, SpawnedMedia { idle_timeout, idle_since: Some(now) });
    }

    /// Whether a media was spawned before and is still running.
    pub fn find_media(&self, media_id: u128) -> (r: bool)
        ensures
            r == self@.dom().contains(media_id),
    {
        self.medias.contains_key(&media_id)
    }

    /// Checks that a media is still running, as it has to be before it is asked for anything.
    pub fn check_media(&self, media_id: u128) -> (r: Result<(), Error>)
        ensures
            r == running(self@, media_id),
    {
        if self.medias.contains_key(&media_id) {
            Ok(())
        } else {
            Err(Error::status(StatusCode::NotFound))
        }
    }

    /// Checks whether a media was idle for too long. Returns whether it has to be shut down; it is
    /// forgotten then.
    pub fn check_media_timeout(&mut self, media_id: u128, now: u64) -> (r: bool)
        ensures
            final(self).id == old(self).id,
            final(self)@ == checked(old(self)@, media_id, now),
            r == (old(self)@.dom().contains(media_id) && old(self)@[media_id].spec_timed_out(now)),
            r <==> old(self)@.dom().contains(media_id) && !final(self)@.dom().contains(media_id),
    {
        let timed_out: bool = match self.medias.get(&media_id) {
            Some(media) => media.timed_out(now),
            None => false,
        };
        if timed_out {
            let _ = self.medias.remove(&media_id);
        }
        timed_out
    }

    /// A media says whether it is idle.
    pub fn media_idle(&mut self, media_id: u128, idle: bool, now: u64) -> (r: Result<
        IdleChange,
        Error,
    >)
        ensures
            final(self).id == old(self).id,
            final(self)@ == idled(old(self)@, media_id, idle, now),
            r == idle_change(old(self)@, media_id, idle),
    {
        match self.medias.remove(&media_id) {
            Some(media) => {
                if idle {
                    self.medias.insert(
                        media_id,
                        SpawnedMedia { idle_timeout: media.idle_timeout, idle_since: Some(now) },
                    );
                    proof {
                        assert(self@ =~= idled(old(self)@, media_id, idle, now));
                    }
                    Ok(IdleChange::Idle(media.idle_timeout))
                } else {
                    self.medias.insert(
                        media_id,
                        SpawnedMedia { idle_timeout: media.idle_timeout, idle_since: None },
                    );
                    proof {
                        assert(self@ =~= idled(old(self)@, media_id, idle, now));
                    }
                    Ok(IdleChange::InUse)
                }
            },
            None => {
                proof {
                    assert(self@ =~= old(self)@);
                }
                Err(Error::internal())
            },
        }
    }

    /// A media has failed or finished. Returns whether it was known.
    pub fn media_ended(&mut self, media_id: u128) -> (r: bool)
        ensures
            final(self).id == old(self).id,
            final(self)@ == old(self)@.remove(media_id),
            r == old(self)@.dom().contains(media_id),
    {
        let ended = self.medias.remove(&media_id);
        ended.is_some()
    }

    /// The media factory shuts down. Returns all medias that have to be shut down with it.
    pub fn shutdown(&self) -> (r: Vec<u128>)
        ensures
            r@.no_duplicates(),
            r@.to_set() == self@.dom(),
    {
        map_keys(&self.medias)
    }
}

/// A media that is never used after it was spawned is shut down by the check after its timeout, but
/// by no check before.
pub proof fn law_unused_media_is_shut_down(
    medias: Map<u128, SpawnedMedia>,
    media_id: u128,
    timeout: u64,
    now: u64,
    later: u64,
)
    ensures
        ({
            let after = spawned(medias, media_id, Some(timeout), now);
            checked(after, media_id, later).dom().contains(media_id) <==> elapsed(now, later)
                < timeout
        }),
{
}

/// A media that is in use, or that has no timeout, is shut down by no check.
pub proof fn law_used_media_stays(
    medias: Map<u128, SpawnedMedia>,
    media_id: u128,
    now: u64,
    later: u64,
)
    requires
        medias.dom().contains(media_id),
    ensures
        checked(idled(medias, media_id, false, now), media_id, later).dom().contains(media_id),
        medias[media_id].idle_timeout is None ==> checked(medias, media_id, later).dom().contains(
            media_id,
        ),
{
}

/// A media is running from when it is spawned until a check shuts it down, and not found afterwards.
pub proof fn law_spawned_media_runs(
    medias: Map<u128, SpawnedMedia>,
    media_id: u128,
    idle_timeout: Option<u64>,
    now: u64,
    later: u64,
)
    ensures
        running(spawned(medias, media_id, idle_timeout, now), media_id) is Ok,
        running(medias.remove(media_id), media_id) == Err::<(), Error>(
            Error::spec_status(StatusCode::NotFound),
        ),
        medias.dom().contains(media_id) && medias[media_id].spec_timed_out(later) ==> running(
            checked(medias, media_id, later),
            media_id,
        ) is Err,
        medias.dom().contains(media_id) && !medias[media_id].spec_timed_out(later) ==> running(
            checked(medias, media_id, later),
            media_id,
        ) is Ok,
        spawned(medias, media_id, idle_timeout, now)[media_id].idle_since == Some(now),
        spawned(medias, media_id, idle_timeout, now)[media_id].idle_timeout == idle_timeout,
{
}

/// Whether a media is there after something just as it was before, if it was.
pub open spec fn keeps(
    before: Map<u128, SpawnedMedia>,
    after: Map<u128, SpawnedMedia>,
    media_id: u128,
) -> bool {
    &&& after.dom().contains(media_id) <==> before.dom().contains(media_id)
    &&& before.dom().contains(media_id) ==> after[media_id] == before[media_id]
}

/// What happens to a media leaves every other one as it is. A check that does not shut a media
/// down changes nothing.
pub proof fn law_other_medias_stay(
    medias: Map<u128, SpawnedMedia>,
    media_id: u128,
    idle: bool,
    idle_timeout: Option<u64>,
    now: u64,
    other: u128,
)
    requires
        other != media_id,
    ensures
        keeps(medias, spawned(medias, media_id, idle_timeout, now), other),
        keeps(medias, idled(medias, media_id, idle, now), other),
        keeps(medias, checked(medias, media_id, now), other),
        checked(medias, media_id, now).dom().contains(media_id) ==> checked(medias, media_id, now)
            == medias,
{
}

/// A media that says that it is idle is checked after its timeout if it has one. By that check it
/// is shut down, unless it is in use by then or was in the meantime, and by none before. It keeps
/// its timeout all the time. One that is in use is not to be checked, and one that is not running
/// is an error.
pub proof fn law_idle_media_is_shut_down(
    medias: Map<u128, SpawnedMedia>,
    media_id: u128,
    idle: bool,
    now: u64,
    later: u64,
)
    ensures
        idle_change(medias, media_id, idle) is Ok <==> medias.dom().contains(media_id),
        idle_change(medias, media_id, idle) matches Err(err) ==> err == Error::spec_internal()
            && idled(medias, media_id, idle, now) == medias,
        idle_change(medias, media_id, false) matches Ok(change) ==> change == IdleChange::InUse,
        idle_change(medias, media_id, true) matches Ok(change) ==> change == IdleChange::Idle(
            medias[media_id].idle_timeout,
        ) && (change matches IdleChange::Idle(Some(timeout)) ==> (checked(
            idled(medias, media_id, true, now),
            media_id,
            later,
        ).dom().contains(media_id) <==> elapsed(now, later) < timeout)),
        medias.dom().contains(media_id) ==> {
            let after = idled(medias, media_id, idle, now);
            &&& after.dom().contains(media_id)
            &&& after[media_id].idle_timeout == medias[media_id].idle_timeout
            &&& after[media_id].idle_since is Some <==> idle
        },
{
}

} // verus!
