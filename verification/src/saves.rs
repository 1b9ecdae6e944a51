//! The save snapshot: the plain values the save subsystem persists. The
//! combat core produces it; serialization to disk and the directory layout
//! are the embedding program's concern.

use vstd::prelude::*;
use crate::health::Health;
use crate::soul::SoulPower;

verus! {

/// One saved game: timestamps in whole seconds, the played time, and the
/// status values the status bar and the spawner read back.
#[derive(Clone, Debug)]
pub struct GameSave {
    /// Seconds since the epoch when the save was last written.
    pub last_modified_time: u64,
    /// Seconds since the epoch when the save was created.
    pub created_time: u64,
    /// Total seconds played on this save.
    pub total_playing_time: u64,
    pub saving_name: String,
    pub unlocked_mahou: String,
    pub money: u32,
    pub health: u32,
    pub health_limit: u32,
    pub energy: u32,
    pub energy_limit: u32,
}

impl GameSave {
    /// A fresh save named `name`, created at `now` (seconds since the
    /// epoch), with the starting status values.
    pub fn new(name: String, now: u64) -> (s: GameSave)
        ensures
            s.last_modified_time == now,
            s.created_time == now,
            s.total_playing_time == 0,
            s.saving_name@ == name@,
            s.unlocked_mahou@ == "nashi"@,
            s.money == 0,
            s.health == 1500,
            s.health_limit == 2000,
            s.energy == 490,
            s.energy_limit == 500,
    {
        GameSave {
            last_modified_time: now,
            created_time: now,
            total_playing_time: 0,
            saving_name: name,
            unlocked_mahou: "nashi".to_string(),
            money: 0,
            health: 1500,
            health_limit: 2000,
            energy: 490,
            energy_limit: 500,
        }
    }

    /// The same save carrying a snapshot of the given health and soul
    /// pools, stamped with a new modification time.
    pub fn with_status(self, health: &Health, soul: &SoulPower, now: u64) -> (s: GameSave)
        ensures
            s.health == health.now,
            s.health_limit == health.max,
            s.energy == soul.now,
            s.energy_limit == soul.max,
            s.last_modified_time == now,
            s.created_time == self.created_time,
            s.total_playing_time == self.total_playing_time,
            s.saving_name@ == self.saving_name@,
            s.unlocked_mahou@ == self.unlocked_mahou@,
            s.money == self.money,
    {
        GameSave {
            last_modified_time: now,
            health: health.now,
            health_limit: health.max,
            energy: soul.now,
            energy_limit: soul.max,
            ..self
        }
    }
}

} // verus!
