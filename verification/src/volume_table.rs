//! The room on a volume, and what of it is spoken for.

use crate::ids::CommandId;
use crate::store::{from_sqlite, integrity, refused, to_sqlite, wide_signed, StoreError};
#[allow(unused_imports)]
use crate::store::fits_sqlite;
use crate::text::{concat3, str_equal};
#[allow(unused_imports)]
use crate::text::signed_decimal;
use vstd::prelude::*;

verus! {

/// A volume, with what has been observed of it.
#[derive(Clone, Debug, PartialEq, Eq)]
pub struct VolumeRow {
    pub volume_id: String,
    pub roles: Vec<String>,
    pub warning_threshold: i64,
    pub critical_threshold: i64,
    pub emergency_allowance: i64,
    pub observed_free: i64,
}

/// Room on a volume that a command may use.
#[derive(Clone, Debug, PartialEq, Eq)]
pub struct ReservationRow {
    pub command_id: CommandId,
    pub volume_id: String,
    pub allowance: i64,
    pub active: bool,
}

/// The row is of a command on a volume.
pub open spec fn reserves(row: ReservationRow, command: CommandId, volume: Seq<char>) -> bool {
    row.command_id == command && row.volume_id@ == volume
}

/// How much of the first `n` reservations counts on a volume, but for those of a command.
pub open spec fn reserved_but(
    rows: Seq<ReservationRow>,
    volume: Seq<char>,
    but: Option<CommandId>,
    n: nat,
) -> int
    decreases n,
{
    if n == 0 {
        0
    } else {
        let row = rows[n - 1];
        reserved_but(rows, volume, but, (n - 1) as nat) + if row.active && row.volume_id@ == volume
            && Some(row.command_id) != but {
            row.allowance as int
        } else {
            0
        }
    }
}

/// How much is spoken for on a volume.
pub open spec fn reserved_on(rows: Seq<ReservationRow>, volume: Seq<char>) -> int {
    reserved_but(rows, volume, None, rows.len())
}

/// Allowances are not negative, and a command has one reservation on a volume at most.
pub open spec fn reservations_sound(rows: Seq<ReservationRow>) -> bool {
    &&& forall|i: int| 0 <= i < rows.len() ==> (#[trigger] rows[i]).allowance >= 0
    &&& forall|i: int, j: int|
        0 <= i < j < rows.len() ==> !reserves(
            #[trigger] rows[i],
            (#[trigger] rows[j]).command_id,
            rows[j].volume_id@,
        )
}

/// What is known of a reservation.
#[verifier::ext_equal]
pub struct ReservationInfo {
    pub command_id: CommandId,
    pub volume: Seq<char>,
    pub allowance: i64,
    pub active: bool,
}

impl View for ReservationRow {
    type V = ReservationInfo;

    open spec fn view(&self) -> ReservationInfo {
        ReservationInfo {
            command_id: self.command_id,
            volume: self.volume_id@,
            allowance: self.allowance,
            active: self.active,
        }
    }
}

/// What is known of the reservations.
pub open spec fn reservation_infos(rows: Seq<ReservationRow>) -> Seq<ReservationInfo> {
    rows.map_values(|row: ReservationRow| row@)
}

/// The reservation is of a command on a volume.
pub open spec fn is_of(info: ReservationInfo, command: CommandId, volume: Seq<char>) -> bool {
    info.command_id == command && info.volume == volume
}

/// The command has had room on the volume before.
pub open spec fn has_reservation(
    infos: Seq<ReservationInfo>,
    command: CommandId,
    volume: Seq<char>,
) -> bool {
    exists|i: int| 0 <= i < infos.len() && is_of(#[trigger] infos[i], command, volume)
}

/// The reservations once a command has so much room on a volume: its reservation there
/// counts again with the new allowance, or is added. No other one changes.
pub open spec fn with_reservation(
    infos: Seq<ReservationInfo>,
    command: CommandId,
    volume: Seq<char>,
    allowance: i64,
) -> Seq<ReservationInfo> {
    if has_reservation(infos, command, volume) {
        infos.map_values(
            |info: ReservationInfo|
                if is_of(info, command, volume) {
                    ReservationInfo { allowance, active: true, ..info }
                } else {
                    info
                },
        )
    } else {
        infos.push(ReservationInfo { command_id: command, volume, allowance, active: true })
    }
}

/// The reservations after those of a command have been released.
pub open spec fn released(rows: Seq<ReservationRow>, command: CommandId) -> Seq<ReservationRow> {
    rows.map_values(
        |row: ReservationRow|
            if row.command_id == command {
                ReservationRow { active: false, ..row }
            } else {
                row
            },
    )
}

/// The volumes.
#[derive(Clone, Debug, PartialEq, Eq)]
pub struct VolumeTable {
    pub volumes: Vec<VolumeRow>,
    pub reservations: Vec<ReservationRow>,
}

/// The first row of a volume.
pub open spec fn volume_at(rows: Seq<VolumeRow>, i: int, volume: Seq<char>) -> bool {
    0 <= i < rows.len() && rows[i].volume_id@ == volume
}

/// There is a row of the volume.
pub open spec fn has_volume(rows: Seq<VolumeRow>, volume: Seq<char>) -> bool {
    exists|i: int| volume_at(rows, i, volume)
}

/// No two rows are of the same volume.
pub open spec fn volumes_sound(rows: Seq<VolumeRow>) -> bool {
    forall|i: int, j: int|
        0 <= i < j < rows.len() ==> (#[trigger] rows[i]).volume_id@ != (
        #[trigger] rows[j]).volume_id@
}

/// What is known of a volume.
pub open spec fn volume_row(rows: Seq<VolumeRow>, volume: Seq<char>) -> VolumeRow {
    rows[choose|i: int| volume_at(rows, i, volume)]
}

/// What is known of a volume stays the same.
pub open spec fn volume_kept(
    before: Seq<VolumeRow>,
    after: Seq<VolumeRow>,
    volume: Seq<char>,
) -> bool {
    &&& has_volume(after, volume) == has_volume(before, volume)
    &&& has_volume(before, volume) ==> volume_row(after, volume) == volume_row(before, volume)
}

proof fn lemma_volume_unique(rows: Seq<VolumeRow>, volume: Seq<char>, i: int)
    requires
        volumes_sound(rows),
        volume_at(rows, i, volume),
    ensures
        has_volume(rows, volume),
        (choose|k: int| volume_at(rows, k, volume)) == i,
{
    let k = choose|k: int| volume_at(rows, k, volume);
    if k < i {
        assert(rows[k].volume_id@ != rows[i].volume_id@);
    } else if i < k {
        assert(rows[i].volume_id@ != rows[k].volume_id@);
    }
}

proof fn lemma_reserved_bounds(
    rows: Seq<ReservationRow>,
    volume: Seq<char>,
    but: Option<CommandId>,
    n: nat,
)
    requires
        n <= rows.len(),
        reservations_sound(rows),
    ensures
        0 <= reserved_but(rows, volume, but, n) <= n * i64::MAX,
    decreases n,
{
    if n > 0 {
        lemma_reserved_bounds(rows, volume, but, (n - 1) as nat);
        assert(rows[n - 1].allowance >= 0);
        assert((n - 1) * i64::MAX + i64::MAX == n * i64::MAX) by (nonlinear_arith);
    }
}

proof fn lemma_reserved_agree(
    before: Seq<ReservationRow>,
    after: Seq<ReservationRow>,
    volume: Seq<char>,
    but: Option<CommandId>,
    n: nat,
)
    requires
        n <= before.len(),
        n <= after.len(),
        forall|i: int| 0 <= i < n ==> #[trigger] before[i] == after[i],
    ensures
        reserved_but(before, volume, but, n) == reserved_but(after, volume, but, n),
    decreases n,
{
    if n > 0 {
        lemma_reserved_agree(before, after, volume, but, (n - 1) as nat);
        assert(before[n - 1] == after[n - 1]);
    }
}

/// What counts with a command is what counts without it and its own reservation.
proof fn lemma_reserved_with(
    rows: Seq<ReservationRow>,
    volume: Seq<char>,
    command: CommandId,
    i: int,
    n: nat,
)
    requires
        reservations_sound(rows),
        0 <= i < rows.len(),
        reserves(rows[i], command, volume),
        n <= rows.len(),
    ensures
        reserved_but(rows, volume, None, n) == reserved_but(rows, volume, Some(command), n)
            + if i < n && rows[i].active {
            rows[i].allowance as int
        } else {
            0
        },
    decreases n,
{
    if n > 0 {
        lemma_reserved_with(rows, volume, command, i, (n - 1) as nat);
        let k = n - 1;
        if k != i && rows[k].volume_id@ == volume && rows[k].command_id == command {
            if k < i {
                assert(!reserves(rows[k], rows[i].command_id, rows[i].volume_id@));
            } else {
                assert(!reserves(rows[i], rows[k].command_id, rows[k].volume_id@));
            }
        }
    }
}

/// The text that refuses a reservation.
pub open spec fn shortage_text(volume: Seq<char>, free: int, required: int) -> Seq<char> {
    "volume "@ + volume + " has "@ + signed_decimal(free)
        + " bytes free but the reservation requires "@ + signed_decimal(required)
}

/// Why room cannot be reserved.
pub enum ReservationFault {
    Allowance,
    NoIntent,
    NoVolume,
    SumOverflow,
    TotalOverflow,
    Shortage { free: int, required: int },
}

/// The error reports the fault.
pub open spec fn reservation_error(
    error: StoreError,
    volume: Seq<char>,
    fault: ReservationFault,
) -> bool {
    match fault {
        ReservationFault::Allowance => error.broken("volume allowance exceeds SQLite range"@),
        ReservationFault::NoIntent => error is Sql,
        ReservationFault::NoVolume => error is Sql,
        ReservationFault::SumOverflow => error is Sql,
        ReservationFault::TotalOverflow => error.broken("volume reservation total overflowed"@),
        ReservationFault::Shortage { free, required } => error.broken(
            shortage_text(volume, free, required),
        ),
    }
}

impl VolumeTable {
    /// The table holds together.
    pub open spec fn wf(self) -> bool {
        volumes_sound(self.volumes@) && reservations_sound(self.reservations@)
    }

    /// An empty table.
    pub fn new() -> (r: VolumeTable)
        ensures
            r.wf(),
            r.volumes@.len() == 0,
            r.reservations@.len() == 0,
    {
        VolumeTable { volumes: Vec::new(), reservations: Vec::new() }
    }

    fn find_volume(&self, volume: &str) -> (r: Option<usize>)
        requires
            volumes_sound(self.volumes@),
        ensures
            match r {
                Some(i) => volume_at(self.volumes@, i as int, volume@) && has_volume(
                    self.volumes@,
                    volume@,
                ) && volume_row(self.volumes@, volume@) == self.volumes@[i as int],
                None => !has_volume(self.volumes@, volume@),
            },
    {
        let mut i: usize = 0;
        while i < self.volumes.len()
            invariant
                i <= self.volumes@.len(),
                volumes_sound(self.volumes@),
                forall|j: int|
                    0 <= j < i ==> (#[trigger] self.volumes@[j]).volume_id@ != volume@,
            decreases self.volumes@.len() - i,
        {
            if str_equal(self.volumes[i].volume_id.as_str(), volume) {
                proof {
                    lemma_volume_unique(self.volumes@, volume@, i as int);
                }
                return Some(i);
            }
            i += 1;
        }
        None
    }

    /// Records what has been observed of a volume.
    pub fn upsert_volume_state(
        &mut self,
        volume_id: &str,
        roles: Vec<String>,
        warning_threshold: u64,
        critical_threshold: u64,
        emergency_allowance: u64,
        observed_free: u64,
    ) -> (r: Result<(), StoreError>)
        requires
            old(self).wf(),
        ensures
            final(self).wf(),
            final(self).reservations@ == old(self).reservations@,
            r is Ok <==> fits_sqlite(warning_threshold) && fits_sqlite(critical_threshold)
                && fits_sqlite(emergency_allowance) && fits_sqlite(observed_free),
            r is Err ==> final(self).volumes@ == old(self).volumes@,
            r matches Err(error) ==> error.broken(
                "volume byte count exceeds SQLite INTEGER range"@,
            ),
            r is Ok ==> has_volume(final(self).volumes@, volume_id@),
            r is Ok ==> ({
                let row = volume_row(final(self).volumes@, volume_id@);
                &&& row.roles == roles
                &&& row.warning_threshold == warning_threshold
                &&& row.critical_threshold == critical_threshold
                &&& row.emergency_allowance == emergency_allowance
                &&& row.observed_free == observed_free
            }),
            forall|other: Seq<char>|
                other != volume_id@ ==> #[trigger] volume_kept(
                    old(self).volumes@,
                    final(self).volumes@,
                    other,
                ),
    {
        let complaint = "volume byte count exceeds SQLite INTEGER range";
        let warning: i64 = match to_sqlite(warning_threshold, complaint) {
            Ok(value) => value,
            Err(error) => {
                return Err(error);
            },
        };
        let critical: i64 = match to_sqlite(critical_threshold, complaint) {
            Ok(value) => value,
            Err(error) => {
                return Err(error);
            },
        };
        let emergency: i64 = match to_sqlite(emergency_allowance, complaint) {
            Ok(value) => value,
            Err(error) => {
                return Err(error);
            },
        };
        let free: i64 = match to_sqlite(observed_free, complaint) {
            Ok(value) => value,
            Err(error) => {
                return Err(error);
            },
        };
        let ghost had = self.volumes@;
        let found = self.find_volume(volume_id);
        let row = VolumeRow {
            volume_id: volume_id.to_owned(),
            roles,
            warning_threshold: warning,
            critical_threshold: critical,
            emergency_allowance: emergency,
            observed_free: free,
        };
        let ghost given = row;
        match found {
            Some(i) => {
                self.volumes.set(i, row);
                proof {
                    let now = self.volumes@;
                    assert(now =~= had.update(i as int, given));
                    assert(volumes_sound(now)) by {
                        assert forall|a: int, b: int| 0 <= a < b < now.len() implies (
                        #[trigger] now[a]).volume_id@ != (#[trigger] now[b]).volume_id@ by {
                            assert(had[a].volume_id@ != had[b].volume_id@);
                        }
                    }
                    assert(volume_at(now, i as int, volume_id@));
                    lemma_volume_unique(now, volume_id@, i as int);
                    lemma_others_kept(had, now, volume_id@, i as int);
                }
            },
            None => {
                self.volumes.push(row);
                proof {
                    let now = self.volumes@;
                    let i = had.len() as int;
                    assert(now =~= had.push(given));
                    assert(volumes_sound(now)) by {
                        assert forall|a: int, b: int| 0 <= a < b < now.len() implies (
                        #[trigger] now[a]).volume_id@ != (#[trigger] now[b]).volume_id@ by {
                            if b < i {
                                assert(had[a].volume_id@ != had[b].volume_id@);
                            } else {
                                assert(!volume_at(had, a, volume_id@));
                            }
                        }
                    }
                    assert(volume_at(now, i, volume_id@));
                    lemma_volume_unique(now, volume_id@, i);
                    lemma_others_kept(had, now, volume_id@, i);
                }
            },
        }
        Ok(())
    }

    fn sum_reserved(&self, volume: &str, but: Option<CommandId>) -> (r: i128)
        requires
            reservations_sound(self.reservations@),
        ensures
            r == reserved_but(self.reservations@, volume@, but, self.reservations@.len()),
            r >= 0,
    {
        let mut sum: i128 = 0;
        let mut i: usize = 0;
        let total: usize = self.reservations.len();
        while i < total
            invariant
                i <= total == self.reservations@.len(),
                reservations_sound(self.reservations@),
                sum == reserved_but(self.reservations@, volume@, but, i as nat),
                0 <= sum <= i * i64::MAX,
            decreases total - i,
        {
            let row = &self.reservations[i];
            let mine = match but {
                Some(command) => row.command_id.0 == command.0,
                None => false,
            };
            proof {
                assert(row.allowance >= 0);
                assert(i * i64::MAX + i64::MAX <= i128::MAX) by (nonlinear_arith)
                    requires
                        0 <= i <= 0xffff_ffff_ffff_fffe,
                ;
                assert(i * i64::MAX + i64::MAX == (i + 1) * i64::MAX) by (nonlinear_arith);
            }
            if row.active && !mine && str_equal(row.volume_id.as_str(), volume) {
                sum += row.allowance as i128;
            }
            i += 1;
        }
        sum
    }

    /// Below how much free room a volume is watched, and below how much it is in danger.
    pub fn volume_thresholds(&self, volume_id: &str) -> (r: Result<
        Option<(u64, u64)>,
        StoreError,
    >)
        requires
            self.wf(),
        ensures
            ({
                let row = volume_row(self.volumes@, volume_id@);
                if !has_volume(self.volumes@, volume_id@) {
                    r == Ok::<Option<(u64, u64)>, StoreError>(None)
                } else if row.warning_threshold < 0 {
                    r matches Err(error) && error.broken("negative volume warning threshold"@)
                } else if row.critical_threshold < 0 {
                    r matches Err(error) && error.broken("negative volume critical threshold"@)
                } else {
                    r matches Ok(Some(found)) && found.0 == row.warning_threshold && found.1
                        == row.critical_threshold
                }
            }),
    {
        match self.find_volume(volume_id) {
            Some(i) => {
                let warning: u64 = match from_sqlite(
                    self.volumes[i].warning_threshold,
                    "negative volume warning threshold",
                ) {
                    Ok(warning) => warning,
                    Err(error) => {
                        return Err(error);
                    },
                };
                match from_sqlite(
                    self.volumes[i].critical_threshold,
                    "negative volume critical threshold",
                ) {
                    Ok(critical) => Ok(Some((warning, critical))),
                    Err(error) => Err(error),
                }
            },
            None => Ok(None),
        }
    }

    /// How much is spoken for on a volume.
    pub fn active_volume_reservation(&self, volume_id: &str) -> (r: i128)
        requires
            self.wf(),
        ensures
            r == reserved_on(self.reservations@, volume_id@),
            r >= 0,
    {
        self.sum_reserved(volume_id, None)
    }

    /// Why a command cannot have room on a volume.
    pub open spec fn fault(
        self,
        command: CommandId,
        volume: Seq<char>,
        allowance: u64,
        has_intent: bool,
    ) -> Option<ReservationFault> {
        let row = volume_row(self.volumes@, volume);
        let others = reserved_but(
            self.reservations@,
            volume,
            Some(command),
            self.reservations@.len(),
        );
        let required = row.critical_threshold + others + allowance;
        if !fits_sqlite(allowance) {
            Some(ReservationFault::Allowance)
        } else if !has_intent {
            Some(ReservationFault::NoIntent)
        } else if !has_volume(self.volumes@, volume) {
            Some(ReservationFault::NoVolume)
        } else if others > i64::MAX {
            Some(ReservationFault::SumOverflow)
        } else if row.critical_threshold + others > i64::MAX || required > i64::MAX {
            Some(ReservationFault::TotalOverflow)
        } else if row.observed_free < required {
            Some(ReservationFault::Shortage { free: row.observed_free as int, required })
        } else {
            None
        }
    }

    /// Speaks for room on a volume. `has_intent` says that the command has an operation
    /// under way.
    pub fn reserve_volume(
        &mut self,
        command_id: CommandId,
        volume_id: &str,
        allowance: u64,
        has_intent: bool,
    ) -> (r: Result<(), StoreError>)
        requires
            old(self).wf(),
        ensures
            final(self).wf(),
            final(self).volumes@ == old(self).volumes@,
            match old(self).fault(command_id, volume_id@, allowance, has_intent) {
                Some(fault) => final(self).reservations@ == old(self).reservations@ && (
                r matches Err(error) && reservation_error(error, volume_id@, fault)),
                None => {
                    &&& r is Ok
                    &&& reservation_infos(final(self).reservations@) == with_reservation(
                        reservation_infos(old(self).reservations@),
                        command_id,
                        volume_id@,
                        allowance as i64,
                    )
                    &&& reserved_on(final(self).reservations@, volume_id@) == reserved_but(
                        old(self).reservations@,
                        volume_id@,
                        Some(command_id),
                        old(self).reservations@.len(),
                    ) + allowance
                    &&& volume_row(old(self).volumes@, volume_id@).critical_threshold
                        + reserved_on(final(self).reservations@, volume_id@) <= volume_row(
                        old(self).volumes@,
                        volume_id@,
                    ).observed_free
                },
            },
    {
        let granted: i64 = match to_sqlite(allowance, "volume allowance exceeds SQLite range") {
            Ok(value) => value,
            Err(error) => {
                return Err(error);
            },
        };
        if !has_intent {
            return Err(refused("Query returned no rows"));
        }
        let at: usize = match self.find_volume(volume_id) {
            Some(at) => at,
            None => {
                return Err(refused("Query returned no rows"));
            },
        };
        let others: i128 = self.sum_reserved(volume_id, Some(command_id));
        if others > 0x7fff_ffff_ffff_ffff {
            return Err(refused("integer overflow"));
        }
        let critical: i128 = self.volumes[at].critical_threshold as i128;
        let free: i128 = self.volumes[at].observed_free as i128;
        let required: i128 = critical + others + granted as i128;
        if critical + others > 0x7fff_ffff_ffff_ffff || required > 0x7fff_ffff_ffff_ffff {
            return Err(integrity("volume reservation total overflowed"));
        }
        if free < required {
            let mut text = concat3("volume ", volume_id, " has ");
            text.append(wide_signed(free).as_str());
            text.append(" bytes free but the reservation requires ");
            text.append(wide_signed(required).as_str());
            return Err(StoreError::Integrity(text));
        }
        self.grant(command_id, volume_id, granted);
        Ok(())
    }

    fn grant(&mut self, command_id: CommandId, volume_id: &str, allowance: i64)
        requires
            old(self).wf(),
            allowance >= 0,
        ensures
            final(self).wf(),
            final(self).volumes@ == old(self).volumes@,
            reservation_infos(final(self).reservations@) == with_reservation(
                reservation_infos(old(self).reservations@),
                command_id,
                volume_id@,
                allowance,
            ),
            reserved_on(final(self).reservations@, volume_id@) == reserved_but(
                old(self).reservations@,
                volume_id@,
                Some(command_id),
                old(self).reservations@.len(),
            ) + allowance,
    {
        let ghost had = self.reservations@;
        let mut i: usize = 0;
        while i < self.reservations.len()
            invariant
                i <= self.reservations@.len(),
                self.reservations@ == had,
                had == old(self).reservations@,
                self.volumes@ == old(self).volumes@,
                self.wf(),
                allowance >= 0,
                forall|j: int|
                    0 <= j < i ==> !reserves(#[trigger] had[j], command_id, volume_id@),
            decreases self.reservations@.len() - i,
        {
            if self.reservations[i].command_id.0 == command_id.0 && str_equal(
                self.reservations[i].volume_id.as_str(),
                volume_id,
            ) {
                self.reservations[i].allowance = allowance;
                self.reservations[i].active = true;
                proof {
                    let now = self.reservations@;
                    let at = i as int;
                    assert(reserves(had[at], command_id, volume_id@));
                    assert(now =~= had.update(
                        at,
                        ReservationRow { allowance, active: true, ..had[at] },
                    ));
                    assert forall|a: int, b: int| 0 <= a < b < now.len() implies !reserves(
                        #[trigger] now[a],
                        (#[trigger] now[b]).command_id,
                        now[b].volume_id@,
                    ) by {
                        assert(!reserves(had[a], had[b].command_id, had[b].volume_id@));
                    }
                    lemma_reserved_with(now, volume_id@, command_id, at, now.len());
                    lemma_but_ignores(had, now, volume_id@, command_id, at, now.len());
                    let infos = reservation_infos(had);
                    assert(is_of(infos[at], command_id, volume_id@));
                    let wanted = with_reservation(infos, command_id, volume_id@, allowance);
                    assert forall|k: int| 0 <= k < now.len() implies reservation_infos(now)[k]
                        == #[trigger] wanted[k] by {
                        if k < at {
                            assert(!reserves(had[k], had[at].command_id, had[at].volume_id@));
                        } else if at < k {
                            assert(!reserves(had[at], had[k].command_id, had[k].volume_id@));
                        }
                    }
                    assert(reservation_infos(now) =~= wanted);
                }
                return;
            }
            i += 1;
        }
        let row = ReservationRow {
            command_id,
            volume_id: volume_id.to_owned(),
            allowance,
            active: true,
        };
        let ghost given = row;
        self.reservations.push(row);
        proof {
            let now = self.reservations@;
            let at = had.len() as int;
            assert(now =~= had.push(given));
            assert forall|a: int, b: int| 0 <= a < b < now.len() implies !reserves(
                #[trigger] now[a],
                (#[trigger] now[b]).command_id,
                now[b].volume_id@,
            ) by {
                if b < at {
                    assert(!reserves(had[a], had[b].command_id, had[b].volume_id@));
                } else {
                    assert(!reserves(had[a], command_id, volume_id@));
                }
            }
            lemma_reserved_with(now, volume_id@, command_id, at, now.len());
            lemma_reserved_agree(had, now, volume_id@, Some(command_id), had.len());
            let infos = reservation_infos(had);
            assert(!has_reservation(infos, command_id, volume_id@)) by {
                assert forall|k: int| 0 <= k < infos.len() implies !is_of(
                    #[trigger] infos[k],
                    command_id,
                    volume_id@,
                ) by {
                    assert(!reserves(had[k], command_id, volume_id@));
                }
            }
            assert(reservation_infos(now) =~= with_reservation(
                infos,
                command_id,
                volume_id@,
                allowance,
            ));
        }
    }

    /// Releases what a command has spoken for.
    pub fn deactivate_volume_reservation(&mut self, command_id: CommandId)
        requires
            old(self).wf(),
        ensures
            final(self).wf(),
            final(self).volumes@ == old(self).volumes@,
            final(self).reservations@ == released(old(self).reservations@, command_id),
    {
        let ghost had = self.reservations@;
        let ghost goal = released(had, command_id);
        let mut i: usize = 0;
        while i < self.reservations.len()
            invariant
                i <= self.reservations@.len(),
                self.reservations@.len() == had.len(),
                had == old(self).reservations@,
                self.volumes@ == old(self).volumes@,
                goal == released(had, command_id),
                forall|j: int| 0 <= j < i ==> #[trigger] self.reservations@[j] == goal[j],
                forall|j: int|
                    i <= j < had.len() ==> #[trigger] self.reservations@[j] == had[j],
            decreases self.reservations@.len() - i,
        {
            assert(self.reservations@[i as int] == had[i as int]);
            if self.reservations[i].command_id.0 == command_id.0 {
                self.reservations[i].active = false;
                assert(self.reservations@[i as int] == ReservationRow {
                    active: false,
                    ..had[i as int]
                });
            }
            assert(self.reservations@[i as int] == goal[i as int]);
            i += 1;
        }
        proof {
            assert(self.reservations@ =~= goal);
            assert forall|a: int, b: int| 0 <= a < b < goal.len() implies !reserves(
                #[trigger] goal[a],
                (#[trigger] goal[b]).command_id,
                goal[b].volume_id@,
            ) by {
                assert(!reserves(had[a], had[b].command_id, had[b].volume_id@));
            }
            assert forall|a: int| 0 <= a < goal.len() implies (#[trigger] goal[a]).allowance
                >= 0 by {
                assert(had[a].allowance >= 0);
            }
        }
    }
}

proof fn lemma_but_ignores(
    before: Seq<ReservationRow>,
    after: Seq<ReservationRow>,
    volume: Seq<char>,
    command: CommandId,
    at: int,
    n: nat,
)
    requires
        n <= before.len() == after.len(),
        0 <= at < before.len(),
        before[at].command_id == command,
        after == before.update(at, after[at]),
        after[at].command_id == command,
    ensures
        reserved_but(before, volume, Some(command), n) == reserved_but(
            after,
            volume,
            Some(command),
            n,
        ),
    decreases n,
{
    if n > 0 {
        lemma_but_ignores(before, after, volume, command, at, (n - 1) as nat);
        if n - 1 != at {
            assert(before[n - 1] == after[n - 1]);
        }
    }
}

proof fn lemma_others_kept(
    before: Seq<VolumeRow>,
    after: Seq<VolumeRow>,
    volume: Seq<char>,
    at: int,
)
    requires
        volumes_sound(before),
        volumes_sound(after),
        0 <= at < after.len(),
        after[at].volume_id@ == volume,
        before.len() <= after.len() <= before.len() + 1,
        after.len() > before.len() ==> at == before.len(),
        at < before.len() ==> before[at].volume_id@ == volume,
        forall|i: int| 0 <= i < before.len() && i != at ==> #[trigger] before[i] == after[i],
    ensures
        forall|other: Seq<char>|
            other != volume ==> #[trigger] volume_kept(before, after, other),
{
    assert forall|other: Seq<char>| other != volume implies #[trigger] volume_kept(
        before,
        after,
        other,
    ) by {
        if has_volume(before, other) {
            let i = choose|i: int| volume_at(before, i, other);
            assert(before[i] == after[i]);
            assert(volume_at(after, i, other));
            lemma_volume_unique(before, other, i);
            lemma_volume_unique(after, other, i);
        }
        if has_volume(after, other) {
            let i = choose|i: int| volume_at(after, i, other);
            assert(i != at);
            assert(before[i] == after[i]);
            assert(volume_at(before, i, other));
        }
    }
}

proof fn lemma_released_lower(
    rows: Seq<ReservationRow>,
    command: CommandId,
    volume: Seq<char>,
    n: nat,
)
    requires
        reservations_sound(rows),
        n <= rows.len(),
    ensures
        reserved_but(released(rows, command), volume, None, n) == reserved_but(
            rows,
            volume,
            Some(command),
            n,
        ),
    decreases n,
{
    if n > 0 {
        lemma_released_lower(rows, command, volume, (n - 1) as nat);
        let row = rows[n - 1];
        assert(released(rows, command)[n - 1] == if row.command_id == command {
            ReservationRow { active: false, ..row }
        } else {
            row
        });
    }
}

/// Once a command has been released, its room counts for the others again: what is
/// spoken for is what the others have.
pub proof fn law_released_room_is_free_again(
    rows: Seq<ReservationRow>,
    command: CommandId,
    volume: Seq<char>,
)
    requires
        reservations_sound(rows),
    ensures
        reserved_on(released(rows, command), volume) == reserved_but(
            rows,
            volume,
            Some(command),
            rows.len(),
        ),
{
    lemma_released_lower(rows, command, volume, rows.len());
}

} // verus!
