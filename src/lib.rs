pub mod database;
pub mod tally;
pub mod chains;
pub mod points;
pub mod ledger;
pub mod cleanup;
pub mod text;
pub mod guild_settings;
pub mod styles;
pub mod leaderboard;
