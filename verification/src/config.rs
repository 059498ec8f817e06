//! The settings of the service: where it listens and which database it
//! serves, in which mode.

use vstd::prelude::*;

verus! {

/// Why settings were turned down.
#[derive(Clone, Copy, Debug, PartialEq, Eq, Structural)]
pub enum ConfigError {
    /// A read-only store was asked for without a database to read.
    ReadonlyWithoutDatabase,
}

impl ConfigError {
    /// The words in which the failure is reported.
    pub fn message(&self) -> (text: String)
        ensures
            text@ == "Configuration error: --readonly requires --db to also be defined"@,
    {
        String::from_str("Configuration error: --readonly requires --db to also be defined")
    }
}

/// The character of one decimal digit.
pub open spec fn digit(value: nat) -> char {
    if value == 0 {
        '0'
    } else if value == 1 {
        '1'
    } else if value == 2 {
        '2'
    } else if value == 3 {
        '3'
    } else if value == 4 {
        '4'
    } else if value == 5 {
        '5'
    } else if value == 6 {
        '6'
    } else if value == 7 {
        '7'
    } else if value == 8 {
        '8'
    } else {
        '9'
    }
}

/// A number in decimal notation, without leading zeros.
pub open spec fn decimal(value: nat) -> Seq<char>
    decreases value,
{
    if value < 10 {
        seq![digit(value)]
    } else {
        decimal(value / 10).push(digit(value % 10))
    }
}

fn digit_text(value: usize) -> (text: &'static str)
    requires
        value < 10,
    ensures
        text@ == seq![digit(value as nat)],
{
    proof {
        reveal_strlit("0");
        reveal_strlit("1");
        reveal_strlit("2");
        reveal_strlit("3");
        reveal_strlit("4");
        reveal_strlit("5");
        reveal_strlit("6");
        reveal_strlit("7");
        reveal_strlit("8");
        reveal_strlit("9");
    }
    if value == 0 {
        "0"
    } else if value == 1 {
        "1"
    } else if value == 2 {
        "2"
    } else if value == 3 {
        "3"
    } else if value == 4 {
        "4"
    } else if value == 5 {
        "5"
    } else if value == 6 {
        "6"
    } else if value == 7 {
        "7"
    } else if value == 8 {
        "8"
    } else {
        "9"
    }
}

/// Writes a number in decimal notation.
pub fn to_decimal(value: usize) -> (text: String)
    ensures
        text@ == decimal(value as nat),
    decreases value,
{
    if value < 10 {
        String::from_str(digit_text(value))
    } else {
        let mut text = to_decimal(value / 10);
        text.append(digit_text(value % 10));
        text
    }
}

/// The settings of the service. A read-only service always names a database:
/// there is nothing to read in a store that starts out empty.
#[derive(Debug)]
pub struct AppConfig {
    host: String,
    port: usize,
    db: Option<String>,
    readonly: bool,
}

impl Clone for AppConfig {
    fn clone(&self) -> (copy: Self)
        ensures
            copy == *self,
    {
        proof {
            use_type_invariant(self);
        }
        let db = match &self.db {
            Some(path) => Some(path.clone()),
            None => None,
        };
        AppConfig { host: self.host.clone(), port: self.port, db, readonly: self.readonly }
    }
}

impl AppConfig {
    /// The host name or address on which the service listens.
    pub closed spec fn spec_host(&self) -> Seq<char> {
        self.host@
    }

    /// The port on which the service listens.
    pub closed spec fn spec_port(&self) -> nat {
        self.port as nat
    }

    /// The path of the database file, if the log is kept in one.
    pub closed spec fn spec_db(&self) -> Option<String> {
        self.db
    }

    /// Whether the store is only read.
    pub closed spec fn spec_readonly(&self) -> bool {
        self.readonly
    }

    #[verifier::type_invariant]
    spec fn well_formed(&self) -> bool {
        self.readonly ==> self.db is Some
    }

    /// Whether settings can be served: read-only needs a database.
    pub open spec fn acceptable(db: Option<String>, readonly: bool) -> bool {
        readonly ==> db is Some
    }

    /// Takes the settings as they were given on the command line, and turns
    /// them down where they ask for a read-only store without a database.
    pub fn load(host: String, port: usize, db: Option<String>, readonly: bool) -> (res: Result<
        AppConfig,
        ConfigError,
    >)
        ensures
            match res {
                Ok(config) => {
                    &&& Self::acceptable(db, readonly)
                    &&& config.spec_host() == host@
                    &&& config.spec_port() == port
                    &&& config.spec_db() == db
                    &&& config.spec_readonly() == readonly
                },
                Err(error) => !Self::acceptable(db, readonly) && error
                    == ConfigError::ReadonlyWithoutDatabase,
            },
    {
        if readonly && db.is_none() {
            return Err(ConfigError::ReadonlyWithoutDatabase);
        }
        Ok(AppConfig { host, port, db, readonly })
    }

    /// The path of the database file, if the log is kept in one.
    pub fn db(&self) -> (db: &Option<String>)
        ensures
            *db == self.spec_db(),
            self.spec_readonly() ==> db is Some,
    {
        proof {
            use_type_invariant(self);
        }
        &self.db
    }

    /// Whether the store is only read.
    pub fn readonly(&self) -> (readonly: bool)
        ensures
            readonly == self.spec_readonly(),
    {
        self.readonly
    }

    /// The address on which the service listens: the host, a colon, and the
    /// port in decimal notation.
    pub fn address(&self) -> (address: String)
        ensures
            address@ == self.spec_host() + seq![':'] + decimal(self.spec_port()),
    {
        proof {
            reveal_strlit(":");
        }
        let mut address = self.host.clone();
        address.append(":");
        let port = to_decimal(self.port);
        address.append(port.as_str());
        address
    }
}

} // verus!
