//! Reservations of disk space.
use crate::errcode;
use crate::errcode::{filled_in, ret_to_result_void, BchError};
use vstd::prelude::*;

verus! {

/// What is reserved.
#[allow(non_camel_case_types)]
#[derive(Clone, Copy, PartialEq, Eq, Structural, Debug)]
pub struct disk_reservation {
    pub sectors: u64,
    pub generation: u32,
    pub nr_replicas: u32,
}

/// A reservation of disk space. A commit may use it up, and it may grow, while its holder keeps it:
/// it can be lent to many commits, and each goes on with what the one before has left.
#[derive(PartialEq, Eq, Structural, Debug)]
pub struct DiskReservation {
    raw: disk_reservation,
}

/// What a reservation of nothing holds.
pub open spec fn nothing() -> disk_reservation {
    disk_reservation { sectors: 0, generation: 0, nr_replicas: 0 }
}

/// What is reserved, where there is a reservation.
pub open spec fn reserved_in(d: Option<&mut DiskReservation>) -> Option<disk_reservation> {
    match d {
        Some(d) => Some(d.reserved()),
        None => None,
    }
}

/// What is reserved once `held` was lent to an operation that has left `left` of it.
pub open spec fn spent(
    held: Option<disk_reservation>,
    left: Option<disk_reservation>,
) -> Option<disk_reservation> {
    match (held, left) {
        (Some(_), Some(l)) => Some(l),
        _ => held,
    }
}

impl DiskReservation {
    /// What is reserved.
    pub closed spec fn reserved(self) -> disk_reservation {
        self.raw
    }

    /// A reservation of nothing.
    pub fn new() -> (r: Self)
        ensures
            r.reserved() == nothing(),
    {
        DiskReservation { raw: disk_reservation { sectors: 0, generation: 0, nr_replicas: 0 } }
    }

    /// A reservation for the given number of replicas, as `init` sets it up.
    pub fn init<I: FnOnce(u32) -> disk_reservation>(nr_replicas: u32, init: I) -> (r: Self)
        requires
            call_requires(init, (nr_replicas,)),
        ensures
            call_ensures(init, (nr_replicas,), r.reserved()),
    {
        let raw = init(nr_replicas);
        DiskReservation { raw }
    }

    /// Reserves space. `get` is given a reservation of nothing, the number of sectors, the number of
    /// replicas, and the flags; it returns the reservation as it has left it.
    pub fn get<G: FnOnce(disk_reservation, u64, u32, i32) -> (i32, disk_reservation)>(
        sectors: u64,
        nr_replicas: u32,
        flags: i32,
        get: G,
    ) -> (r: Result<Self, BchError>)
        requires
            call_requires(get, (nothing(), sectors, nr_replicas, flags)),
        ensures
            exists|o: (i32, disk_reservation)| #[trigger]
                call_ensures(get, (nothing(), sectors, nr_replicas, flags), o) && match r {
                    Ok(d) => !errcode::is_error(o.0 as int) && d.reserved() == o.1,
                    Err(e) => errcode::is_error(o.0 as int) && e.code() == -o.0,
                },
    {
        let new = DiskReservation::new();
        let (ret, raw) = get(new.raw, sectors, nr_replicas, flags);
        filled_in(ret, DiskReservation { raw })
    }

    /// Reserves more space. `grow` is given what is reserved, the number of sectors, and the flags; it
    /// returns the reservation as it has left it.
    pub fn add<A: FnOnce(disk_reservation, u64, i32) -> (i32, disk_reservation)>(
        &mut self,
        sectors: u64,
        flags: i32,
        grow: A,
    ) -> (r: Result<(), BchError>)
        requires
            call_requires(grow, (old(self).reserved(), sectors, flags)),
        ensures
            exists|o: (i32, disk_reservation)| #[trigger]
                call_ensures(grow, (old(self).reserved(), sectors, flags), o)
                    && final(self).reserved() == o.1 && match r {
                    Ok(_) => !errcode::is_error(o.0 as int),
                    Err(e) => errcode::is_error(o.0 as int) && e.code() == -o.0,
                },
    {
        let (ret, raw) = grow(self.raw, sectors, flags);
        self.raw = raw;
        ret_to_result_void(ret)
    }

    /// What is reserved.
    pub fn as_ptr(&self) -> (r: &disk_reservation)
        ensures
            *r == self.reserved(),
    {
        &self.raw
    }

    /// What is reserved, to be changed in place.
    pub fn as_mut_ptr(&mut self) -> (r: &mut disk_reservation)
        ensures
            *r == old(self).reserved(),
            final(self).reserved() == *final(r),
    {
        &mut self.raw
    }

    /// Takes back what an operation has left of the reservation that was lent to it.
    pub(crate) fn give_back(&mut self, left: Option<disk_reservation>)
        ensures
            Some(final(self).reserved()) == spent(Some(old(self).reserved()), left),
    {
        if let Some(l) = left {
            self.raw = l;
        }
    }

    /// How many sectors are reserved.
    pub fn sectors(&self) -> (r: u64)
        ensures
            r == self.reserved().sectors,
    {
        self.raw.sectors
    }
}

/// What is left of a reservation that was lent is what the operation says, and all of it where it says
/// nothing; where nothing was lent, nothing is reserved.
pub proof fn law_what_is_left_is_what_was_said(held: disk_reservation, left: disk_reservation)
    ensures
        spent(Some(held), Some(left)) == Some(left),
        spent(Some(held), None) == Some(held),
        spent(None, Some(left)) is None,
        spent(None, None) is None,
        nothing().sectors == 0 && nothing().generation == 0 && nothing().nr_replicas == 0,
{
}

} // verus!
