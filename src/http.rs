//! Where a service listens, as its configuration gives it.

use std::borrow::Cow;

use vstd::prelude::*;

use crate::config::{member, or_bad, ConfigError, ConfigFile, ConfigValue};

verus! {

/// The port a service listens on where its configuration names none.
pub const DEFAULT_PORT: u16 = 8081;

/// The character of a decimal digit.
pub open spec fn digit_char(d: nat) -> char {
    if d == 0 { '0' }
    else if d == 1 { '1' }
    else if d == 2 { '2' }
    else if d == 3 { '3' }
    else if d == 4 { '4' }
    else if d == 5 { '5' }
    else if d == 6 { '6' }
    else if d == 7 { '7' }
    else if d == 8 { '8' }
    else { '9' }
}

/// The decimal text of `n`, without leading zeros.
pub open spec fn decimal(n: nat) -> Seq<char>
    decreases n,
{
    if n < 10 {
        seq![digit_char(n)]
    } else {
        decimal(n / 10).push(digit_char(n % 10))
    }
}

/// The address and port that a configuration gives a service, or the name
/// of the part that it lacks. The `service` section must exist and hold a
/// string `address`; an integer `port` is taken modulo 2^16, and any other
/// port gives the default.
pub open spec fn service_settings(root: ConfigValue) -> Result<(Seq<char>, u16), Seq<char>> {
    let service = or_bad(member(root, "service"@));
    let address = or_bad(member(service, "address"@));
    let port = match or_bad(member(service, "port"@)) {
        ConfigValue::Integer(p) => p as u16,
        _ => DEFAULT_PORT,
    };
    if service is BadValue {
        Err("service"@)
    } else {
        match address {
            ConfigValue::String(a) => Ok((a@, port)),
            _ => Err("service -> address"@),
        }
    }
}

/// Where a service listens.
pub struct APIConfig<'a> {
    addr: Cow<'a, str>,
    port: u16,
}

fn digit_text(d: u16) -> (r: &'static str)
    requires
        d < 10,
    ensures
        r@ == seq![digit_char(d as nat)],
{
    proof {
        reveal_strlit("0");
        reveal_strlit("1");
        reveal_strlit("2");
        reveal_strlit("3");
        reveal_strlit("4");
        reveal_strlit("5");
        reveal_strlit("6");
        reveal_strlit("7");
        reveal_strlit("8");
        reveal_strlit("9");
    }
    if d == 0 { "0" }
    else if d == 1 { "1" }
    else if d == 2 { "2" }
    else if d == 3 { "3" }
    else if d == 4 { "4" }
    else if d == 5 { "5" }
    else if d == 6 { "6" }
    else if d == 7 { "7" }
    else if d == 8 { "8" }
    else { "9" }
}

/// The decimal text of `n`.
fn decimal_text(n: u16) -> (r: String)
    ensures
        r@ == decimal(n as nat),
    decreases n,
{
    if n < 10 {
        String::from_str(digit_text(n))
    } else {
        let mut s = decimal_text(n / 10);
        s.append(digit_text(n % 10));
        s
    }
}

impl<'a> APIConfig<'a> {
    /// The address.
    pub closed spec fn address(&self) -> Seq<char> {
        self.addr@
    }

    /// The port.
    pub closed spec fn spec_port(&self) -> u16 {
        self.port
    }

    /// Reads the `service` section of a configuration: its `address`, and
    /// its `port` or the default port.
    pub fn new(c: &'a ConfigFile) -> (r: Result<Self, ConfigError>)
        ensures
            match service_settings(c.root()) {
                Ok((a, p)) => r matches Ok(cfg) && cfg.address() == a && cfg.spec_port() == p,
                Err(part) => r matches Err(ConfigError::MissingComponent(m)) && m@ == part,
            },
    {
        let service = c.lookup("service");
        if service.is_badvalue() {
            return Err(ConfigError::MissingComponent(String::from_str("service")));
        }
        let address = match service.get("address") {
            Some(v) => v,
            None => {
                return Err(ConfigError::MissingComponent(String::from_str("service -> address")));
            },
        };
        let text = match address.as_str() {
            Some(t) => t,
            None => {
                return Err(ConfigError::MissingComponent(String::from_str("service -> address")));
            },
        };
        let port = match service.get("port") {
            Some(v) => match v.as_i64() {
                Some(p) => p as u16,
                None => DEFAULT_PORT,
            },
            None => DEFAULT_PORT,
        };
        Ok(APIConfig { addr: Cow::Borrowed(text), port })
    }

    /// `address:port`, as a client would dial it.
    pub fn get_conn(&self) -> (r: String)
        ensures
            r@ == self.address() + seq![':'] + decimal(self.spec_port() as nat),
    {
        let mut s = match &self.addr {
            Cow::Borrowed(b) => String::from_str(b),
            Cow::Owned(o) => o.clone(),
        };
        proof {
            reveal_strlit(":");
        }
        s.append(":");
        let digits = decimal_text(self.port);
        s.append(digits.as_str());
        s
    }
}

} // verus!
