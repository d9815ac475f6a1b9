use vstd::prelude::*;

use crate::events::InstanceId;

verus! {

/// What every instance is configured with, whatever its game.
#[derive(Debug, Clone)]
pub struct InstanceConfig {
    pub uuid: InstanceId,
    pub name: String,
    pub port: u32,
    pub auto_start: bool,
}

/// A Minecraft server: its configuration and whether its process runs.
#[derive(Debug, Clone)]
pub struct MinecraftInstance {
    pub config: InstanceConfig,
    pub running: bool,
}

/// One managed game server, of one of the supported games.
#[derive(Debug, Clone)]
pub enum GameInstance {
    Minecraft(MinecraftInstance),
}

/// Why an instance could not be started or found.
#[derive(Debug, Clone, Copy, PartialEq, Eq, Structural)]
pub enum InstanceError {
    NotFound,
    AlreadyRunning,
}

impl GameInstance {
    pub open spec fn config_spec(&self) -> InstanceConfig {
        match self {
            GameInstance::Minecraft(m) => m.config,
        }
    }

    pub open spec fn id_spec(&self) -> InstanceId {
        self.config_spec().uuid
    }

    pub open spec fn running_spec(&self) -> bool {
        match self {
            GameInstance::Minecraft(m) => m.running,
        }
    }

    /// The same instance with its process marked running or not.
    pub open spec fn with_running(&self, running: bool) -> GameInstance {
        match self {
            GameInstance::Minecraft(m) => GameInstance::Minecraft(MinecraftInstance { running, ..*m }),
        }
    }

    /// A Minecraft instance rebuilt from its configuration, not running.
    pub fn restore_minecraft(config: InstanceConfig) -> (r: GameInstance)
        ensures
            r == GameInstance::Minecraft(MinecraftInstance { config, running: false }),
    {
        GameInstance::Minecraft(MinecraftInstance { config, running: false })
    }

    pub fn config(&self) -> (r: &InstanceConfig)
        ensures
            *r == self.config_spec(),
    {
        match self {
            GameInstance::Minecraft(m) => &m.config,
        }
    }

    pub fn uuid(&self) -> (r: InstanceId)
        ensures
            r == self.id_spec(),
    {
        self.config().uuid
    }

    pub fn name(&self) -> (r: &String)
        ensures
            *r == self.config_spec().name,
    {
        &self.config().name
    }

    pub fn port(&self) -> (r: u32)
        ensures
            r == self.config_spec().port,
    {
        self.config().port
    }

    pub fn auto_start(&self) -> (r: bool)
        ensures
            r == self.config_spec().auto_start,
    {
        self.config().auto_start
    }

    pub fn is_running(&self) -> (r: bool)
        ensures
            r == self.running_spec(),
    {
        match self {
            GameInstance::Minecraft(m) => m.running,
        }
    }

    /// Marks the process started; an instance that runs already is left as
    /// it is and reported.
    pub fn start(&mut self) -> (r: Result<(), InstanceError>)
        ensures
            r is Ok <==> !old(self).running_spec(),
            r matches Err(e) ==> e == InstanceError::AlreadyRunning && *final(self) == *old(self),
            r is Ok ==> *final(self) == old(self).with_running(true),
    {
        match self {
            GameInstance::Minecraft(m) => {
                if m.running {
                    Err(InstanceError::AlreadyRunning)
                } else {
                    m.running = true;
                    Ok(())
                }
            },
        }
    }

    /// Marks the process stopped; stopping a stopped instance changes nothing.
    /// Returns whether it was running.
    pub fn stop(&mut self) -> (r: bool)
        ensures
            r == old(self).running_spec(),
            *final(self) == old(self).with_running(false),
    {
        match self {
            GameInstance::Minecraft(m) => {
                let was = m.running;
                m.running = false;
                was
            },
        }
    }
}

} // verus!
