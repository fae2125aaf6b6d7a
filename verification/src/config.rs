//! The desktop shell's configuration, the command lines that it starts the
//! engine and the DNS sidecar with, and what it does when one of the two
//! exits.

use crate::bridge::str_eq;
use vstd::prelude::*;
use vstd::string::StringExecFns;

verus! {

/// The settings of the desktop shell, as its configuration file holds them.
#[derive(Debug, PartialEq, Eq)]
pub struct Config {
    pub iface_name: String,
    pub server_domain: String,
    pub server_auth: String,
    pub default_dns: String,
    pub log_level: String,
    pub pool_size: u32,
    pub enable_ipset: bool,
    pub inverse_route: bool,
    pub enable_dns: bool,
    pub dns_listen: String,
    pub trust_dns: String,
}

impl Default for Config {
    /// The settings before any were made: every text empty, every number
    /// zero, every switch off.
    fn default() -> (c: Config)
        ensures
            c.iface_name@.len() == 0,
            c.server_domain@.len() == 0,
            c.server_auth@.len() == 0,
            c.default_dns@.len() == 0,
            c.log_level@.len() == 0,
            c.pool_size == 0,
            !c.enable_ipset,
            !c.inverse_route,
            !c.enable_dns,
            c.dns_listen@.len() == 0,
            c.trust_dns@.len() == 0,
    {
        Config {
            iface_name: String::new(),
            server_domain: String::new(),
            server_auth: String::new(),
            default_dns: String::new(),
            log_level: String::new(),
            pool_size: 0,
            enable_ipset: false,
            inverse_route: false,
            enable_dns: false,
            dns_listen: String::new(),
            trust_dns: String::new(),
        }
    }
}

impl Clone for Config {
    fn clone(&self) -> (c: Config)
        ensures
            c == *self,
    {
        Config {
            iface_name: self.iface_name.clone(),
            server_domain: self.server_domain.clone(),
            server_auth: self.server_auth.clone(),
            default_dns: self.default_dns.clone(),
            log_level: self.log_level.clone(),
            pool_size: self.pool_size,
            enable_ipset: self.enable_ipset,
            inverse_route: self.inverse_route,
            enable_dns: self.enable_dns,
            dns_listen: self.dns_listen.clone(),
            trust_dns: self.trust_dns.clone(),
        }
    }
}

/// The number that the engine's command line takes for a log level named
/// `level`; 5 for any name that is not a level.
pub open spec fn spec_level_number(level: Seq<char>) -> Seq<char> {
    if level == "Trace"@ {
        "0"@
    } else if level == "Debug"@ {
        "1"@
    } else if level == "Info"@ {
        "2"@
    } else if level == "Warn"@ {
        "3"@
    } else if level == "Error"@ {
        "4"@
    } else {
        "5"@
    }
}

/// The character of the decimal digit `d`.
pub open spec fn digit(d: nat) -> char {
    if d == 0 {
        '0'
    } else if d == 1 {
        '1'
    } else if d == 2 {
        '2'
    } else if d == 3 {
        '3'
    } else if d == 4 {
        '4'
    } else if d == 5 {
        '5'
    } else if d == 6 {
        '6'
    } else if d == 7 {
        '7'
    } else if d == 8 {
        '8'
    } else {
        '9'
    }
}

/// The number `n` written in decimal digits.
pub open spec fn spec_decimal(n: nat) -> Seq<char>
    decreases n,
{
    if n < 10 {
        seq![digit(n)]
    } else {
        spec_decimal(n / 10).push(digit(n % 10))
    }
}

/// `ToString::to_string` on a `u32`: the number in decimal digits, without
/// sign or padding.
#[verifier::external_body]
fn decimal(n: u32) -> (s: String)
    ensures
        s@ == spec_decimal(n as nat),
{
    n.to_string()
}

/// The arguments that the engine is started with.
pub open spec fn spec_wintun_args(c: Config, ipset: Seq<char>, driver: Seq<char>) -> Seq<
    Seq<char>,
> {
    seq![
        "-l"@,
        "logs\\wintun.log"@,
        "-L"@,
        spec_level_number(c.log_level@),
        "-a"@,
        "127.0.0.1:60080"@,
        "-p"@,
        c.server_auth@,
        "wintun"@,
        "-n"@,
        c.iface_name@,
        "-H"@,
        c.server_domain@,
        "--dns-server-addr"@,
        c.default_dns@ + ":53"@,
        "-P"@,
        spec_decimal(c.pool_size as nat),
        "-w"@,
        driver,
    ] + (if c.enable_ipset {
        seq!["--route-ipset"@, ipset] + (if c.inverse_route {
            seq!["--inverse-route"@]
        } else {
            Seq::empty()
        })
    } else {
        Seq::empty()
    })
}

/// The arguments that the DNS sidecar is started with.
pub open spec fn spec_dns_args(c: Config, domains: Seq<char>) -> Seq<Seq<char>> {
    seq![
        "-l"@,
        "logs\\dns.log"@,
        "-L"@,
        spec_level_number(c.log_level@),
        "-a"@,
        "127.0.0.1:60080"@,
        "-p"@,
        c.server_auth@,
        "dns"@,
        "-n"@,
        c.iface_name@,
        "--blocked-domain-list"@,
        domains,
        "--poisoned-dns"@,
        c.default_dns@,
        "--dns-listen-address"@,
        c.dns_listen@ + ":53"@,
    ] + (if !c.enable_ipset {
        seq!["--add-route"@]
    } else {
        Seq::empty()
    })
}

/// What each of the arguments spells.
pub open spec fn arg_views(args: Seq<String>) -> Seq<Seq<char>> {
    args.map_values(|s: String| s@)
}

/// Appends the argument `arg`.
fn push_arg(args: &mut Vec<String>, arg: &str)
    ensures
        arg_views(final(args)@) == arg_views(old(args)@).push(arg@),
{
    let owned = arg.to_owned();
    args.push(owned);
}

impl Config {
    /// The number that the engine's command line takes for the configured
    /// log level.
    pub fn log_level_str(&self) -> (s: &'static str)
        ensures
            s@ == spec_level_number(self.log_level@),
    {
        let level = self.log_level.as_str();
        if str_eq(level, "Trace") {
            "0"
        } else if str_eq(level, "Debug") {
            "1"
        } else if str_eq(level, "Info") {
            "2"
        } else if str_eq(level, "Warn") {
            "3"
        } else if str_eq(level, "Error") {
            "4"
        } else {
            "5"
        }
    }

    /// The arguments to start the engine with, given where the route set
    /// `ipset` and the TUN driver `driver` lie.
    pub fn wintun_args(&self, ipset: &str, driver: &str) -> (args: Vec<String>)
        ensures
            arg_views(args@) == spec_wintun_args(*self, ipset@, driver@),
    {
        let mut args: Vec<String> = Vec::new();
        push_arg(&mut args, "-l");
        push_arg(&mut args, "logs\\wintun.log");
        push_arg(&mut args, "-L");
        push_arg(&mut args, self.log_level_str());
        push_arg(&mut args, "-a");
        push_arg(&mut args, "127.0.0.1:60080");
        push_arg(&mut args, "-p");
        push_arg(&mut args, self.server_auth.as_str());
        push_arg(&mut args, "wintun");
        push_arg(&mut args, "-n");
        push_arg(&mut args, self.iface_name.as_str());
        push_arg(&mut args, "-H");
        push_arg(&mut args, self.server_domain.as_str());
        push_arg(&mut args, "--dns-server-addr");
        let dns = self.default_dns.clone().concat(":53");
        push_arg(&mut args, dns.as_str());
        push_arg(&mut args, "-P");
        let pool = decimal(self.pool_size);
        push_arg(&mut args, pool.as_str());
        push_arg(&mut args, "-w");
        push_arg(&mut args, driver);
        if self.enable_ipset {
            push_arg(&mut args, "--route-ipset");
            push_arg(&mut args, ipset);
            if self.inverse_route {
                push_arg(&mut args, "--inverse-route");
            }
        }
        args
    }

    /// The arguments to start the DNS sidecar with, given where the list of
    /// blocked domains `domains` lies.
    pub fn dns_args(&self, domains: &str) -> (args: Vec<String>)
        ensures
            arg_views(args@) == spec_dns_args(*self, domains@),
    {
        let mut args: Vec<String> = Vec::new();
        push_arg(&mut args, "-l");
        push_arg(&mut args, "logs\\dns.log");
        push_arg(&mut args, "-L");
        push_arg(&mut args, self.log_level_str());
        push_arg(&mut args, "-a");
        push_arg(&mut args, "127.0.0.1:60080");
        push_arg(&mut args, "-p");
        push_arg(&mut args, self.server_auth.as_str());
        push_arg(&mut args, "dns");
        push_arg(&mut args, "-n");
        push_arg(&mut args, self.iface_name.as_str());
        push_arg(&mut args, "--blocked-domain-list");
        push_arg(&mut args, domains);
        push_arg(&mut args, "--poisoned-dns");
        push_arg(&mut args, self.default_dns.as_str());
        push_arg(&mut args, "--dns-listen-address");
        let listen = self.dns_listen.clone().concat(":53");
        push_arg(&mut args, listen.as_str());
        if !self.enable_ipset {
            push_arg(&mut args, "--add-route");
        }
        args
    }
}

/// One of the two processes that the shell starts.
#[derive(Clone, Copy, Debug, PartialEq, Eq)]
pub enum Child {
    /// The engine.
    Wintun,
    /// The DNS sidecar.
    Dns,
}

/// Which of the two processes run.
#[derive(Clone, Copy, Debug, PartialEq, Eq)]
pub struct Supervisor {
    pub wintun: bool,
    pub dns: bool,
}

/// What the shell does when a process has exited.
#[derive(Clone, Copy, Debug, PartialEq, Eq)]
pub struct ExitPlan {
    /// The process to kill, if the other one still runs.
    pub kill: Option<Child>,
    /// Whether the system's DNS server setting is to be put back.
    pub reset_dns: bool,
    /// Whether no process is left, so that the shell shows "stopped".
    pub stopped: bool,
}

impl Supervisor {
    /// No process runs.
    pub fn new() -> (s: Supervisor)
        ensures
            s == (Supervisor { wintun: false, dns: false }),
    {
        Supervisor { wintun: false, dns: false }
    }

    /// Whether a start request starts anything: not while the engine runs.
    pub fn may_start(&self) -> (r: bool)
        ensures
            r == !self.wintun,
    {
        !self.wintun
    }

    /// The process `child` was started.
    pub fn on_spawned(&mut self, child: Child)
        ensures
            *final(self) == match child {
                Child::Wintun => Supervisor { wintun: true, ..*old(self) },
                Child::Dns => Supervisor { dns: true, ..*old(self) },
            },
    {
        match child {
            Child::Wintun => {
                self.wintun = true;
            },
            Child::Dns => {
                self.dns = true;
            },
        }
    }

    /// The process `child` has exited. Neither process outlives the other:
    /// the one that still runs is killed, and its own exit will be
    /// reported in turn. When the sidecar exits, the system's DNS server
    /// setting is put back.
    pub fn on_exit(&mut self, child: Child) -> (plan: ExitPlan)
        ensures
            *final(self) == (Supervisor { wintun: false, dns: false }),
            plan == match child {
                Child::Wintun => ExitPlan {
                    kill: if old(self).dns {
                        Some(Child::Dns)
                    } else {
                        None
                    },
                    reset_dns: false,
                    stopped: !old(self).dns,
                },
                Child::Dns => ExitPlan {
                    kill: if old(self).wintun {
                        Some(Child::Wintun)
                    } else {
                        None
                    },
                    reset_dns: true,
                    stopped: !old(self).wintun,
                },
            },
    {
        let plan = match child {
            Child::Wintun => ExitPlan {
                kill: if self.dns {
                    Some(Child::Dns)
                } else {
                    None
                },
                reset_dns: false,
                stopped: !self.dns,
            },
            Child::Dns => ExitPlan {
                kill: if self.wintun {
                    Some(Child::Wintun)
                } else {
                    None
                },
                reset_dns: true,
                stopped: !self.wintun,
            },
        };
        self.wintun = false;
        self.dns = false;
        plan
    }

    /// The user asked to stop. A running engine is killed, and its exit
    /// will bring the rest about; with none running the shell shows
    /// "stopped" at once.
    pub fn stop(&mut self) -> (plan: ExitPlan)
        ensures
            *final(self) == (Supervisor { wintun: false, ..*old(self) }),
            plan == (ExitPlan {
                kill: if old(self).wintun {
                    Some(Child::Wintun)
                } else {
                    None
                },
                reset_dns: false,
                stopped: !old(self).wintun,
            }),
    {
        let running = self.wintun;
        self.wintun = false;
        ExitPlan {
            kill: if running {
                Some(Child::Wintun)
            } else {
                None
            },
            reset_dns: false,
            stopped: !running,
        }
    }
}

} // verus!
