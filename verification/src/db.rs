//! The commands that the engine sends to the session store, and the SQL
//! that stands for each.
//!
//! The store has three tables: sessions, pulls that belong to a session,
//! and advice events that belong to a pull. A single writer executes the
//! commands in the order sent.

use crate::text::push_decimal;
use crate::text::decimal_digits;
use vstd::prelude::*;
use vstd::string::StringExecFns;

verus! {

/// Number of pulls that a history query returns unless told otherwise.
pub const DEFAULT_HISTORY_LIMIT: u32 = 25;

/// The tables and indexes of the store.
pub const SCHEMA: &'static str =
    "
        PRAGMA journal_mode = WAL;
        PRAGMA foreign_keys = ON;
        PRAGMA synchronous   = NORMAL;

        CREATE TABLE IF NOT EXISTS sessions (
            id          INTEGER PRIMARY KEY AUTOINCREMENT,
            started_at  INTEGER NOT NULL,
            ended_at    INTEGER,
            player_name TEXT    NOT NULL DEFAULT '',
            player_guid TEXT    NOT NULL DEFAULT '',
            player_spec TEXT,
            realm       TEXT
        );

        CREATE TABLE IF NOT EXISTS pulls (
            id          INTEGER PRIMARY KEY AUTOINCREMENT,
            session_id  INTEGER NOT NULL REFERENCES sessions(id) ON DELETE CASCADE,
            pull_number INTEGER NOT NULL,
            started_at  INTEGER NOT NULL,
            ended_at    INTEGER,
            outcome     TEXT,
            encounter   TEXT
        );

        CREATE TABLE IF NOT EXISTS advice_events (
            id         INTEGER PRIMARY KEY AUTOINCREMENT,
            pull_id    INTEGER NOT NULL REFERENCES pulls(id) ON DELETE CASCADE,
            fired_at   INTEGER NOT NULL,
            rule_key   TEXT    NOT NULL,
            severity   TEXT    NOT NULL,
            message    TEXT    NOT NULL
        );

        CREATE INDEX IF NOT EXISTS idx_pulls_session ON pulls(session_id);
        CREATE INDEX IF NOT EXISTS idx_advice_pull   ON advice_events(pull_id);
        CREATE INDEX IF NOT EXISTS idx_advice_rule   ON advice_events(rule_key);
    ";

/// A command to the store writer.
#[derive(Debug)]
pub enum DbCommand {
    /// Opens a session; the writer answers with the row id.
    InsertSession { started_at: u64, player_name: String, player_guid: String },
    /// Fills in the player of a session.
    UpdateSession { session_id: i64, player_name: String, player_guid: String },
    /// Opens a pull; the writer answers with the row id.
    InsertPull { session_id: i64, pull_number: u32, started_at: u64 },
    /// Closes a pull.
    EndPull { pull_id: i64, ended_at: u64, outcome: String },
    /// Stores an advice with the pull it fired in.
    InsertAdvice { pull_id: i64, fired_at: u64, rule_key: String, severity: String, message: String },
    /// Ends the writer once the commands before it are done.
    Shutdown,
}

/// The mathematical value of a `DbCommand`.
pub enum CommandModel {
    InsertSession { started_at: u64, player_name: Seq<char>, player_guid: Seq<char> },
    UpdateSession { session_id: i64, player_name: Seq<char>, player_guid: Seq<char> },
    InsertPull { session_id: i64, pull_number: u32, started_at: u64 },
    EndPull { pull_id: i64, ended_at: u64, outcome: Seq<char> },
    InsertAdvice {
        pull_id: i64,
        fired_at: u64,
        rule_key: Seq<char>,
        severity: Seq<char>,
        message: Seq<char>,
    },
    Shutdown,
}

impl View for DbCommand {
    type V = CommandModel;

    open spec fn view(&self) -> CommandModel {
        match *self {
            DbCommand::InsertSession {
                started_at,
                player_name,
                player_guid,
            } => CommandModel::InsertSession {
                started_at,
                player_name: player_name@,
                player_guid: player_guid@,
            },
            DbCommand::UpdateSession {
                session_id,
                player_name,
                player_guid,
            } => CommandModel::UpdateSession {
                session_id,
                player_name: player_name@,
                player_guid: player_guid@,
            },
            DbCommand::InsertPull {
                session_id,
                pull_number,
                started_at,
            } => CommandModel::InsertPull { session_id, pull_number, started_at },
            DbCommand::EndPull { pull_id, ended_at, outcome } => CommandModel::EndPull {
                pull_id,
                ended_at,
                outcome: outcome@,
            },
            DbCommand::InsertAdvice {
                pull_id,
                fired_at,
                rule_key,
                severity,
                message,
            } => CommandModel::InsertAdvice {
                pull_id,
                fired_at,
                rule_key: rule_key@,
                severity: severity@,
                message: message@,
            },
            DbCommand::Shutdown => CommandModel::Shutdown,
        }
    }
}

/// The values of a list of commands.
pub open spec fn command_views(v: Seq<DbCommand>) -> Seq<CommandModel> {
    Seq::new(v.len(), |i: int| v[i]@)
}

/// A value bound to a placeholder of a statement.
#[derive(Debug)]
pub enum SqlValue {
    Integer(i64),
    Unsigned(u64),
    Text(String),
}

/// The mathematical value of an `SqlValue`.
pub enum SqlModel {
    Integer(i64),
    Unsigned(u64),
    Text(Seq<char>),
}

impl View for SqlValue {
    type V = SqlModel;

    open spec fn view(&self) -> SqlModel {
        match *self {
            SqlValue::Integer(n) => SqlModel::Integer(n),
            SqlValue::Unsigned(n) => SqlModel::Unsigned(n),
            SqlValue::Text(s) => SqlModel::Text(s@),
        }
    }
}

/// The values of a list of bound values.
pub open spec fn sql_views(v: Seq<SqlValue>) -> Seq<SqlModel> {
    Seq::new(v.len(), |i: int| v[i]@)
}

impl CommandModel {
    /// Whether the sender waits for the row id.
    pub open spec fn expects_reply(self) -> bool {
        self is InsertSession || self is InsertPull
    }

    /// The statement for the command; `Shutdown` has none.
    pub open spec fn statement(self) -> Option<Seq<char>> {
        match self {
            CommandModel::InsertSession { .. } => Some(
                "INSERT INTO sessions (started_at, player_name, player_guid) VALUES (?1, ?2, ?3)"@,
            ),
            CommandModel::UpdateSession { .. } => Some(
                "UPDATE sessions SET player_name = ?1, player_guid = ?2 WHERE id = ?3"@,
            ),
            CommandModel::InsertPull { .. } => Some(
                "INSERT INTO pulls (session_id, pull_number, started_at) VALUES (?1, ?2, ?3)"@,
            ),
            CommandModel::EndPull { .. } => Some(
                "UPDATE pulls SET ended_at = ?1, outcome = ?2 WHERE id = ?3"@,
            ),
            CommandModel::InsertAdvice { .. } => Some(
                "INSERT INTO advice_events (pull_id, fired_at, rule_key, severity, message) VALUES (?1, ?2, ?3, ?4, ?5)"@,
            ),
            CommandModel::Shutdown => None,
        }
    }

    /// The values for the placeholders of the statement, in their order.
    pub open spec fn params(self) -> Seq<SqlModel> {
        match self {
            CommandModel::InsertSession { started_at, player_name, player_guid } => seq![
                SqlModel::Unsigned(started_at),
                SqlModel::Text(player_name),
                SqlModel::Text(player_guid),
            ],
            CommandModel::UpdateSession { session_id, player_name, player_guid } => seq![
                SqlModel::Text(player_name),
                SqlModel::Text(player_guid),
                SqlModel::Integer(session_id),
            ],
            CommandModel::InsertPull { session_id, pull_number, started_at } => seq![
                SqlModel::Integer(session_id),
                SqlModel::Unsigned(pull_number as u64),
                SqlModel::Unsigned(started_at),
            ],
            CommandModel::EndPull { pull_id, ended_at, outcome } => seq![
                SqlModel::Unsigned(ended_at),
                SqlModel::Text(outcome),
                SqlModel::Integer(pull_id),
            ],
            CommandModel::InsertAdvice { pull_id, fired_at, rule_key, severity, message } => seq![
                SqlModel::Integer(pull_id),
                SqlModel::Unsigned(fired_at),
                SqlModel::Text(rule_key),
                SqlModel::Text(severity),
                SqlModel::Text(message),
            ],
            CommandModel::Shutdown => Seq::empty(),
        }
    }
}

impl DbCommand {
    /// Whether the sender waits for the row id that the command creates.
    pub fn expects_reply(&self) -> (r: bool)
        ensures
            r == self@.expects_reply(),
    {
        match self {
            DbCommand::InsertSession { .. } => true,
            DbCommand::InsertPull { .. } => true,
            _ => false,
        }
    }

    /// The SQL statement that carries the command out.
    pub fn statement(&self) -> (r: Option<&'static str>)
        ensures
            match r {
                Some(s) => self@.statement() == Some(s@),
                None => self@.statement() is None,
            },
    {
        match self {
            DbCommand::InsertSession { .. } => Some(
                "INSERT INTO sessions (started_at, player_name, player_guid) VALUES (?1, ?2, ?3)",
            ),
            DbCommand::UpdateSession { .. } => Some(
                "UPDATE sessions SET player_name = ?1, player_guid = ?2 WHERE id = ?3",
            ),
            DbCommand::InsertPull { .. } => Some(
                "INSERT INTO pulls (session_id, pull_number, started_at) VALUES (?1, ?2, ?3)",
            ),
            DbCommand::EndPull { .. } => Some(
                "UPDATE pulls SET ended_at = ?1, outcome = ?2 WHERE id = ?3",
            ),
            DbCommand::InsertAdvice { .. } => Some(
                "INSERT INTO advice_events (pull_id, fired_at, rule_key, severity, message) VALUES (?1, ?2, ?3, ?4, ?5)",
            ),
            DbCommand::Shutdown => None,
        }
    }

    /// The values to bind to the statement, in the order of its
    /// placeholders.
    pub fn params(&self) -> (r: Vec<SqlValue>)
        ensures
            sql_views(r@) == self@.params(),
    {
        let mut out: Vec<SqlValue> = Vec::new();
        match self {
            DbCommand::InsertSession { started_at, player_name, player_guid } => {
                out.push(SqlValue::Unsigned(*started_at));
                out.push(SqlValue::Text(player_name.clone()));
                out.push(SqlValue::Text(player_guid.clone()));
            },
            DbCommand::UpdateSession { session_id, player_name, player_guid } => {
                out.push(SqlValue::Text(player_name.clone()));
                out.push(SqlValue::Text(player_guid.clone()));
                out.push(SqlValue::Integer(*session_id));
            },
            DbCommand::InsertPull { session_id, pull_number, started_at } => {
                out.push(SqlValue::Integer(*session_id));
                out.push(SqlValue::Unsigned(*pull_number as u64));
                out.push(SqlValue::Unsigned(*started_at));
            },
            DbCommand::EndPull { pull_id, ended_at, outcome } => {
                out.push(SqlValue::Unsigned(*ended_at));
                out.push(SqlValue::Text(outcome.clone()));
                out.push(SqlValue::Integer(*pull_id));
            },
            DbCommand::InsertAdvice { pull_id, fired_at, rule_key, severity, message } => {
                out.push(SqlValue::Integer(*pull_id));
                out.push(SqlValue::Unsigned(*fired_at));
                out.push(SqlValue::Text(rule_key.clone()));
                out.push(SqlValue::Text(severity.clone()));
                out.push(SqlValue::Text(message.clone()));
            },
            DbCommand::Shutdown => {},
        }
        assert(sql_views(out@) =~= self@.params());
        out
    }
}

/// The query for the last `limit` pulls, newest first, each with the name
/// of its player and the number of its advice.
pub open spec fn history_query(limit: u32) -> Seq<char> {
    "SELECT p.id, p.session_id, p.pull_number, p.started_at, p.ended_at, p.outcome, p.encounter, COALESCE(s.player_name, '') AS player_name, COUNT(ae.id) AS advice_count FROM pulls p LEFT JOIN sessions s ON s.id = p.session_id LEFT JOIN advice_events ae ON ae.pull_id = p.id GROUP BY p.id ORDER BY p.id DESC LIMIT "@
        + decimal_digits(limit as nat)
}

/// The query that a reader runs, on a connection of its own, for the last
/// `limit` pulls.
pub fn pull_history_query(limit: u32) -> (r: String)
    ensures
        r@ == history_query(limit),
{
    let mut out = String::from_str(
        "SELECT p.id, p.session_id, p.pull_number, p.started_at, p.ended_at, p.outcome, p.encounter, COALESCE(s.player_name, '') AS player_name, COUNT(ae.id) AS advice_count FROM pulls p LEFT JOIN sessions s ON s.id = p.session_id LEFT JOIN advice_events ae ON ae.pull_id = p.id GROUP BY p.id ORDER BY p.id DESC LIMIT ",
    );
    push_decimal(&mut out, limit as u64);
    out
}

} // verus!
