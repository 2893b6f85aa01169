use vstd::prelude::*;

verus! {

/// Models of the Xiaomi Mijia accessories the hub knows.
#[derive(Clone, Debug, PartialEq, Eq)]
#[non_exhaustive]
pub enum XiaomiMijia {
    HygroThermometer { mac_address: String },
}

/// Models of the Houseflow accessories the hub knows.
#[derive(Clone, Debug, PartialEq, Eq)]
#[non_exhaustive]
pub enum Houseflow {
    Gate,
    Garage,
}

/// The kind of an accessory: its manufacturer, then its model.
#[derive(Clone, Debug, PartialEq, Eq)]
#[non_exhaustive]
pub enum AccessoryType {
    XiaomiMijia(XiaomiMijia),
    Houseflow(Houseflow),
}

/// Settings of the Hive provider.
#[derive(Clone, Debug, PartialEq, Eq)]
pub struct HiveProvider {}

/// Settings of the Mijia provider.
#[derive(Clone, Debug, PartialEq, Eq)]
pub struct MijiaProvider {}

/// The providers the hub uses; none by default.
#[derive(Clone, Debug, PartialEq, Eq, Default)]
pub struct Providers {
    pub hive: Option<HiveProvider>,
    pub mijia: Option<MijiaProvider>,
}

/// Which side of the system a configuration belongs to.
#[derive(Clone, Copy, Debug, PartialEq, Eq, Structural)]
pub enum Target {
    Server,
    Client,
}

impl Target {
    /// Name of the configuration file of this side, inside the configuration
    /// directory.
    pub fn config_file_name(&self) -> (r: &'static str)
        ensures
            r@ == match self {
                Target::Server => "server.toml"@,
                Target::Client => "client.toml"@,
            },
    {
        match self {
            Target::Server => {
                proof {
                    reveal_strlit("server.toml");
                }
                "server.toml"
            },
            Target::Client => {
                proof {
                    reveal_strlit("client.toml");
                }
                "client.toml"
            },
        }
    }
}

} // verus!
