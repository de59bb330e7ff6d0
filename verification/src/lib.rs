//! The decisions a Corvid game's runtime makes, as verified functions over
//! plain values.

mod units;
mod retention;
mod runtime;
mod text;
mod agreement;
mod app;
mod capture;
mod cli;
mod commands;
mod entry;
mod headless;
mod link;
mod error;
mod net;
mod order;
mod paths;
mod saves;
mod seating;
mod settings;

pub use retention::{Forget, Horizon, Retention};
pub use units::{AchievementId, ExitCode, LobbyId, PeerId, PlayerId, PresenceText, SaveSlot, StatId, Tick, Ticks, Url};
pub use cli::{Argument, Arguments, Load, USAGE};
pub use net::{Advanced, Departures, Rolled, TickTraffic, Traffic, departure_lead, is_stuck, pair_with, peer_of, seat_of};
pub use saves::{NotASave, Saves, check_replay, data_home, data_home_with, resolve, root};
pub use seating::Seating;
pub use settings::{BINDINGS_FILE, SETTINGS_FILE, bindings_path, config_home, config_home_with, settings_path, settings_under};
pub use commands::{Answer, Asked, Command, Request, Requests, Scope, Sink};
pub use agreement::{Agreement, Control, Reply, Said};
pub use app::{App, ClockChoice, Extent, Opens, Prepared, Shown, Started, sandbox_directory};
pub use error::Error;
pub use capture::Capture;
pub use headless::{Headless, Viewport};
pub use link::{Arrival, Delivery, Halt, after_answering, arrive, collect, halted, newest_head};
pub use entry::{CommandLine, FAILED, REFUSED, SETTLED, answer, digest_line, exit_status, settled};
pub use runtime::{Flow, Follow, Progress, after_tick, before_tick, follow, looked, owed, reached_the_count, saved};
