//! The settings of the events generator, with their defaults.
use vstd::prelude::*;

verus! {

/// What the command line gave: for each setting its value, if it was
/// given.
#[derive(Debug)]
pub struct IoArgs {
    pub config_dir: Option<String>,
    pub events_dir: Option<String>,
    pub tornado_tcp_address: Option<String>,
    pub repeat_send: Option<usize>,
    pub repeat_sleep_ms: Option<u64>,
}

/// The settings of the generator's input and output.
#[derive(Debug)]
pub struct Io {
    /// The filesystem folder where the Tornado configuration is saved
    pub config_dir: String,
    /// The filesystem folder where Events are saved in JSON format;
    ///   this folder is relative to the `config_dir`.
    pub events_dir: String,
    /// The Tornado TCP address where outgoing events will be written
    pub tornado_tcp_address: String,
    /// How many times each event should be sent
    pub repeat_send: usize,
    /// How long to sleep after each event is sent, in milliseconds
    pub repeat_sleep_ms: u64,
}

/// The settings of the events generator.
#[derive(Debug)]
pub struct Conf {
    pub io: Io,
}

/// The text given, or the default.
pub open spec fn text_or(given: Option<String>, default: Seq<char>) -> Seq<char> {
    match given {
        Some(s) => s@,
        None => default,
    }
}

fn string_or(given: Option<String>, default: &str) -> (s: String)
    ensures
        s@ == text_or(given, default@),
{
    match given {
        Some(s) => s,
        None => String::from_str(default),
    }
}

impl Conf {
    /// The settings: each as it was given, or at its default.
    pub fn build(args: IoArgs) -> (conf: Conf)
        ensures
            conf.io.config_dir@ == text_or(
                args.config_dir,
                "/etc/tornado/tornado_events_generator"@,
            ),
            conf.io.events_dir@ == text_or(args.events_dir, "/events"@),
            conf.io.tornado_tcp_address@ == text_or(args.tornado_tcp_address, "127.0.0.1:4747"@),
            conf.io.repeat_send == (match args.repeat_send {
                Some(n) => n,
                None => 1000usize,
            }),
            conf.io.repeat_sleep_ms == (match args.repeat_sleep_ms {
                Some(n) => n,
                None => 2000u64,
            }),
    {
        Conf {
            io: Io {
                config_dir: string_or(args.config_dir, "/etc/tornado/tornado_events_generator"),
                events_dir: string_or(args.events_dir, "/events"),
                tornado_tcp_address: string_or(args.tornado_tcp_address, "127.0.0.1:4747"),
                repeat_send: match args.repeat_send {
                    Some(n) => n,
                    None => 1000,
                },
                repeat_sleep_ms: match args.repeat_sleep_ms {
                    Some(n) => n,
                    None => 2000,
                },
            },
        }
    }
}

} // verus!
