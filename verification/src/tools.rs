//! How the two external tools are called: the backup tool once per run, the
//! SQL tool once per unit.

use vstd::prelude::*;
use vstd::string::StringExecFns;
use crate::catalog::{name_texts, MigrationUnit};
use crate::decimal::{decimal_string, decimal_text};
use crate::identity::{ConnectionParams, ConnectionView};
use crate::layout::{backup_file, backup_file_of, migration_file, migration_file_of};

verus! {

/// One call of an external tool. The tool succeeded when it exits with 0.
#[derive(Clone, Debug, PartialEq, Eq)]
pub struct ToolCall {
    /// The program to start.
    pub program: String,
    /// Its arguments, in order.
    pub arguments: Vec<String>,
    /// The environment variable that carries the password.
    pub variable: String,
    /// The password.
    pub password: String,
}

/// A tool call as a mathematical value.
pub ghost struct ToolCallView {
    pub program: Seq<char>,
    pub arguments: Seq<Seq<char>>,
    pub variable: Seq<char>,
    pub password: Seq<char>,
}

impl View for ToolCall {
    type V = ToolCallView;

    open spec fn view(&self) -> ToolCallView {
        ToolCallView {
            program: self.program@,
            arguments: name_texts(self.arguments@),
            variable: self.variable@,
            password: self.password@,
        }
    }
}

/// The arguments that say which database is meant: host, database, user
/// and port.
pub open spec fn connection_arguments(connection: ConnectionView) -> Seq<Seq<char>> {
    seq![
        "-h"@,
        connection.host,
        "-d"@,
        connection.database,
        "-U"@,
        connection.user,
        "-p"@,
        decimal_text(connection.port as nat),
    ]
}

/// The call that dumps the database into the file `output`.
pub open spec fn backup_call_of(connection: ConnectionView, output: Seq<char>) -> ToolCallView {
    ToolCallView {
        program: "pg_dump"@,
        arguments: connection_arguments(connection) + seq!["-f"@, output],
        variable: "PGPASSWORD"@,
        password: connection.password,
    }
}

/// The call that runs the SQL file `file` and stops at its first error.
pub open spec fn apply_call_of(connection: ConnectionView, file: Seq<char>) -> ToolCallView {
    ToolCallView {
        program: "psql"@,
        arguments: connection_arguments(connection) + seq![
            "-a"@,
            "-w"@,
            "-f"@,
            file,
            "-v"@,
            "ON_ERROR_STOP=1"@,
        ],
        variable: "PGPASSWORD"@,
        password: connection.password,
    }
}

fn connection_args(connection: &ConnectionParams) -> (arguments: Vec<String>)
    ensures
        name_texts(arguments@) == connection_arguments(connection@),
{
    let mut arguments: Vec<String> = Vec::new();
    arguments.push(String::from_str("-h"));
    arguments.push(connection.host.clone());
    arguments.push(String::from_str("-d"));
    arguments.push(connection.database.clone());
    arguments.push(String::from_str("-U"));
    arguments.push(connection.user.clone());
    arguments.push(String::from_str("-p"));
    arguments.push(decimal_string(connection.port as u128));
    arguments
}

/// Makes the call of the backup tool that writes to `output_path`.
pub fn backup_call(connection: &ConnectionParams, output_path: &str) -> (call: ToolCall)
    ensures
        call@ == backup_call_of(connection@, output_path@),
{
    let mut arguments = connection_args(connection);
    let ghost head = name_texts(arguments@);
    arguments.push(String::from_str("-f"));
    arguments.push(String::from_str(output_path));
    assert(name_texts(arguments@) =~= head + seq!["-f"@, output_path@]);
    ToolCall {
        program: String::from_str("pg_dump"),
        arguments,
        variable: String::from_str("PGPASSWORD"),
        password: connection.password.clone(),
    }
}

/// Makes the call of the SQL tool that applies the file at `file_path`.
pub fn apply_call(connection: &ConnectionParams, file_path: &str) -> (call: ToolCall)
    ensures
        call@ == apply_call_of(connection@, file_path@),
{
    let mut arguments = connection_args(connection);
    let ghost head = name_texts(arguments@);
    arguments.push(String::from_str("-a"));
    arguments.push(String::from_str("-w"));
    arguments.push(String::from_str("-f"));
    arguments.push(String::from_str(file_path));
    arguments.push(String::from_str("-v"));
    arguments.push(String::from_str("ON_ERROR_STOP=1"));
    assert(name_texts(arguments@) =~= head + seq![
        "-a"@,
        "-w"@,
        "-f"@,
        file_path@,
        "-v"@,
        "ON_ERROR_STOP=1"@,
    ]);
    ToolCall {
        program: String::from_str("psql"),
        arguments,
        variable: String::from_str("PGPASSWORD"),
        password: connection.password.clone(),
    }
}

/// Makes the call that backs up the database of the project in the working
/// directory `root`, into the backup file named after the time `now_millis`.
pub fn backup_at(connection: &ConnectionParams, root: &str, now_millis: u128) -> (call: ToolCall)
    ensures
        call@ == backup_call_of(connection@, backup_file_of(root@, now_millis)),
{
    let output = backup_file(root, now_millis);
    backup_call(connection, output.as_str())
}

/// Makes the call that applies `unit`, a migration file of the project in
/// the working directory `root`.
pub fn apply_unit(connection: &ConnectionParams, root: &str, unit: &MigrationUnit) -> (call:
    ToolCall)
    ensures
        call@ == apply_call_of(connection@, migration_file_of(root@, unit@.path)),
{
    let file = migration_file(root, unit.path.as_str());
    apply_call(connection, file.as_str())
}

} // verus!
