use vstd::prelude::*;

verus! {

/// How much of the log is let through.
#[derive(Clone, Copy, Debug, PartialEq, Eq, Structural)]
pub enum LevelFilter {
    Off,
    Error,
    Warn,
    Info,
    Debug,
    Trace,
}

/// Relies on log::set_max_level: sets the global level filter of the `log` facade.
#[verifier::external_body]
fn set_max_level(level: LevelFilter) {
    log::set_max_level(
        match level {
            LevelFilter::Off => log::LevelFilter::Off,
            LevelFilter::Error => log::LevelFilter::Error,
            LevelFilter::Warn => log::LevelFilter::Warn,
            LevelFilter::Info => log::LevelFilter::Info,
            LevelFilter::Debug => log::LevelFilter::Debug,
            LevelFilter::Trace => log::LevelFilter::Trace,
        },
    );
}

/// Initialize the [log] compatible logging: every record is let through to
/// the installed sink.
pub fn init() {
    set_max_level(LevelFilter::Trace);
}

} // verus!
