//! The local store: the statements that the commands issue, one each, and
//! what the rows that come back mean. The store itself is a database that
//! the driver holds; every text in it is a column of type text.

use vstd::prelude::*;

verus! {

/// Creates the table of chat dialogs, unless it is there.
pub const CREATE_CHAT_HISTORY: &'static str =
    "CREATE TABLE IF NOT EXISTS chat_history (id TEXT PRIMARY KEY NOT NULL, description TEXT NOT NULL, messages TEXT NOT NULL)";

/// Creates the table of profiles, unless it is there.
pub const CREATE_PROFILES: &'static str =
    "CREATE TABLE IF NOT EXISTS profiles (id TEXT PRIMARY KEY NOT NULL, email TEXT, preferences TEXT NOT NULL)";

/// Adds a chat dialog. It fails on an identifier that is there already.
pub const INSERT_CHAT_DIALOG: &'static str =
    "INSERT INTO chat_history (id, description, messages) VALUES (?1, ?2, ?3)";

/// Replaces the messages of the chat dialog with an identifier.
pub const UPDATE_CHAT_DIALOG: &'static str = "UPDATE chat_history SET messages = ?1 WHERE id = ?2";

/// Selects the chat dialog with an identifier, all columns.
pub const SELECT_CHAT_DIALOG: &'static str = "SELECT * FROM chat_history WHERE id = ?1";

/// Selects every chat dialog.
pub const SELECT_CHAT_HISTORY: &'static str = "SELECT id, description, messages FROM chat_history";

/// Adds a profile. It fails on an identifier that is there already.
pub const INSERT_PROFILE: &'static str =
    "INSERT INTO profiles (id, email, preferences) VALUES (?1, ?2, ?3)";

/// Replaces the preferences of the profile with an identifier.
pub const UPDATE_PROFILE: &'static str = "UPDATE profiles SET preferences = ?1 WHERE id = ?2";

/// Selects every profile.
pub const SELECT_PROFILES: &'static str = "SELECT id, email, preferences FROM profiles";

/// One statement with the values of its parameters, the first for `?1`.
/// A parameter without a value is a null.
#[derive(Debug)]
pub struct Statement {
    pub sql: String,
    pub parameters: Vec<Option<String>>,
}

/// A statement, as contracts speak of it.
pub struct StatementView {
    pub sql: Seq<char>,
    pub parameters: Seq<Option<Seq<char>>>,
}

/// The text of a parameter, if it has one.
pub open spec fn parameter_view(parameter: Option<String>) -> Option<Seq<char>> {
    match parameter {
        Some(text) => Some(text@),
        None => None,
    }
}

impl View for Statement {
    type V = StatementView;

    open spec fn view(&self) -> StatementView {
        StatementView {
            sql: self.sql@,
            parameters: self.parameters@.map_values(|p: Option<String>| parameter_view(p)),
        }
    }
}

/// What a column of a row holds.
#[derive(Debug)]
pub enum Cell {
    Null,
    Text(String),
    /// A value that is no text: a number, a blob, or text that is not UTF-8.
    Other,
}

/// A chat dialog as the store holds it.
#[derive(Debug)]
pub struct ChatDialog {
    pub id: String,
    pub description: String,
    pub messages: String,
}

/// A profile as the store holds it.
#[derive(Debug)]
pub struct Profile {
    pub id: String,
    pub email: Option<String>,
    pub preferences: String,
}

/// A chat dialog, as contracts speak of it.
pub struct ChatDialogView {
    pub id: Seq<char>,
    pub description: Seq<char>,
    pub messages: Seq<char>,
}

/// A profile, as contracts speak of it.
pub struct ProfileView {
    pub id: Seq<char>,
    pub email: Option<Seq<char>>,
    pub preferences: Seq<char>,
}

impl View for ChatDialog {
    type V = ChatDialogView;

    open spec fn view(&self) -> ChatDialogView {
        ChatDialogView { id: self.id@, description: self.description@, messages: self.messages@ }
    }
}

impl View for Profile {
    type V = ProfileView;

    open spec fn view(&self) -> ProfileView {
        ProfileView {
            id: self.id@,
            email: parameter_view(self.email),
            preferences: self.preferences@,
        }
    }
}

/// The text in column `column` of `row`, if the row has that column and it
/// holds text.
pub open spec fn text_at(row: Seq<Cell>, column: int) -> Option<Seq<char>> {
    if 0 <= column < row.len() {
        match row[column] {
            Cell::Text(text) => Some(text@),
            _ => None,
        }
    } else {
        None
    }
}

/// The text in column `column` of `row`, or no text where the column holds
/// a null; nothing where the row has no such column or it holds anything
/// else.
pub open spec fn optional_text_at(row: Seq<Cell>, column: int) -> Option<Option<Seq<char>>> {
    if 0 <= column < row.len() {
        match row[column] {
            Cell::Text(text) => Some(Some(text@)),
            Cell::Null => Some(None),
            Cell::Other => None,
        }
    } else {
        None
    }
}

/// The messages in a row of the table of chat dialogs: its third column.
pub open spec fn row_messages(row: Seq<Cell>) -> Option<Seq<char>> {
    text_at(row, 2)
}

/// The chat dialog in a row of identifier, description and messages.
pub open spec fn row_dialog(row: Seq<Cell>) -> Option<ChatDialogView> {
    if text_at(row, 0) is Some && text_at(row, 1) is Some && text_at(row, 2) is Some {
        Some(
            ChatDialogView {
                id: text_at(row, 0).unwrap(),
                description: text_at(row, 1).unwrap(),
                messages: text_at(row, 2).unwrap(),
            },
        )
    } else {
        None
    }
}

/// The profile in a row of identifier, email and preferences.
pub open spec fn row_profile(row: Seq<Cell>) -> Option<ProfileView> {
    if text_at(row, 0) is Some && optional_text_at(row, 1) is Some && text_at(row, 2) is Some {
        Some(
            ProfileView {
                id: text_at(row, 0).unwrap(),
                email: optional_text_at(row, 1).unwrap(),
                preferences: text_at(row, 2).unwrap(),
            },
        )
    } else {
        None
    }
}

/// What `read` makes of each of `rows`, in their order, the rows of which
/// it makes nothing left out.
pub open spec fn rows_read<T>(rows: Seq<Vec<Cell>>, read: spec_fn(Seq<Cell>) -> Option<T>) -> Seq<
    T,
>
    decreases rows.len(),
{
    if rows.len() == 0 {
        Seq::empty()
    } else {
        let rest = rows_read(rows.drop_last(), read);
        match read(rows.last()@) {
            Some(value) => rest.push(value),
            None => rest,
        }
    }
}

/// The messages that a selection of one chat dialog gave.
pub open spec fn messages_in(rows: Seq<Vec<Cell>>) -> Seq<Seq<char>> {
    rows_read(rows, |row: Seq<Cell>| row_messages(row))
}

/// The chat dialogs that the selection of every dialog gave.
pub open spec fn dialogs_in(rows: Seq<Vec<Cell>>) -> Seq<ChatDialogView> {
    rows_read(rows, |row: Seq<Cell>| row_dialog(row))
}

/// The profiles that the selection of every profile gave.
pub open spec fn profiles_in(rows: Seq<Vec<Cell>>) -> Seq<ProfileView> {
    rows_read(rows, |row: Seq<Cell>| row_profile(row))
}

fn statement(sql: &str, parameters: Vec<Option<String>>) -> (s: Statement)
    ensures
        s.sql@ == sql@,
        s.parameters == parameters,
{
    Statement { sql: sql.to_owned(), parameters }
}

/// The statements that prepare the store: one for each table, in the order
/// of chat dialogs, then profiles. Neither has a parameter.
pub fn initialize_db() -> (statements: Vec<Statement>)
    ensures
        statements@.len() == 2,
        statements@[0]@ == (StatementView { sql: CREATE_CHAT_HISTORY@, parameters: seq![] }),
        statements@[1]@ == (StatementView { sql: CREATE_PROFILES@, parameters: seq![] }),
{
    let mut statements: Vec<Statement> = Vec::new();
    statements.push(statement(CREATE_CHAT_HISTORY, Vec::new()));
    statements.push(statement(CREATE_PROFILES, Vec::new()));
    assert(statements@[0]@.parameters =~= seq![]);
    assert(statements@[1]@.parameters =~= seq![]);
    statements
}

/// The statement that adds a chat dialog.
pub fn create_chat_dialog(id: String, description: String, messages: String) -> (s: Statement)
    ensures
        s@ == (StatementView {
            sql: INSERT_CHAT_DIALOG@,
            parameters: seq![Some(id@), Some(description@), Some(messages@)],
        }),
{
    let mut parameters: Vec<Option<String>> = Vec::new();
    parameters.push(Some(id));
    parameters.push(Some(description));
    parameters.push(Some(messages));
    let s = statement(INSERT_CHAT_DIALOG, parameters);
    assert(s@.parameters =~= seq![Some(id@), Some(description@), Some(messages@)]);
    s
}

/// The statement that replaces the messages of the chat dialog `id`.
pub fn update_chat_dialog(id: String, messages: String) -> (s: Statement)
    ensures
        s@ == (StatementView {
            sql: UPDATE_CHAT_DIALOG@,
            parameters: seq![Some(messages@), Some(id@)],
        }),
{
    let mut parameters: Vec<Option<String>> = Vec::new();
    parameters.push(Some(messages));
    parameters.push(Some(id));
    let s = statement(UPDATE_CHAT_DIALOG, parameters);
    assert(s@.parameters =~= seq![Some(messages@), Some(id@)]);
    s
}

/// The statement that selects the chat dialog `id`.
pub fn get_chat_dialog(id: String) -> (s: Statement)
    ensures
        s@ == (StatementView { sql: SELECT_CHAT_DIALOG@, parameters: seq![Some(id@)] }),
{
    let mut parameters: Vec<Option<String>> = Vec::new();
    parameters.push(Some(id));
    let s = statement(SELECT_CHAT_DIALOG, parameters);
    assert(s@.parameters =~= seq![Some(id@)]);
    s
}

/// The statement that selects every chat dialog.
pub fn get_chat_history() -> (s: Statement)
    ensures
        s@ == (StatementView { sql: SELECT_CHAT_HISTORY@, parameters: seq![] }),
{
    let s = statement(SELECT_CHAT_HISTORY, Vec::new());
    assert(s@.parameters =~= seq![]);
    s
}

/// The statement that adds a profile, with or without an email.
pub fn create_profile(id: String, email: Option<String>, preferences: String) -> (s: Statement)
    ensures
        s@ == (StatementView {
            sql: INSERT_PROFILE@,
            parameters: seq![Some(id@), parameter_view(email), Some(preferences@)],
        }),
{
    let mut parameters: Vec<Option<String>> = Vec::new();
    parameters.push(Some(id));
    parameters.push(email);
    parameters.push(Some(preferences));
    let s = statement(INSERT_PROFILE, parameters);
    assert(s@.parameters =~= seq![Some(id@), parameter_view(email), Some(preferences@)]);
    s
}

/// The statement that replaces the preferences of the profile `id`.
pub fn update_profile(id: String, preferences: String) -> (s: Statement)
    ensures
        s@ == (StatementView {
            sql: UPDATE_PROFILE@,
            parameters: seq![Some(preferences@), Some(id@)],
        }),
{
    let mut parameters: Vec<Option<String>> = Vec::new();
    parameters.push(Some(preferences));
    parameters.push(Some(id));
    let s = statement(UPDATE_PROFILE, parameters);
    assert(s@.parameters =~= seq![Some(preferences@), Some(id@)]);
    s
}

/// The statement that selects every profile.
pub fn get_profiles() -> (s: Statement)
    ensures
        s@ == (StatementView { sql: SELECT_PROFILES@, parameters: seq![] }),
{
    let s = statement(SELECT_PROFILES, Vec::new());
    assert(s@.parameters =~= seq![]);
    s
}

fn cell_text(row: &Vec<Cell>, column: usize) -> (text: Option<String>)
    ensures
        parameter_view(text) == text_at(row@, column as int),
{
    if column < row.len() {
        match &row[column] {
            Cell::Text(text) => Some(text.clone()),
            _ => None,
        }
    } else {
        None
    }
}

/// The messages of the chat dialogs in `rows`, which a selection of one
/// dialog gave: one text for each row whose third column holds text.
pub fn chat_dialog_messages(rows: &Vec<Vec<Cell>>) -> (messages: Vec<String>)
    ensures
        messages@.map_values(|m: String| m@) == messages_in(rows@),
{
    let ghost read = |row: Seq<Cell>| row_messages(row);
    let mut messages: Vec<String> = Vec::new();
    let mut i: usize = 0;
    assert(messages@.map_values(|m: String| m@) =~= rows_read(rows@.take(0), read));
    while i < rows.len()
        invariant
            i <= rows.len(),
            read == |row: Seq<Cell>| row_messages(row),
            messages@.map_values(|m: String| m@) == rows_read(rows@.take(i as int), read),
        decreases rows.len() - i,
    {
        assert(rows@.take(i + 1).drop_last() =~= rows@.take(i as int));
        match cell_text(&rows[i], 2) {
            Some(text) => {
                assert(messages@.push(text).map_values(|m: String| m@) =~= messages@.map_values(
                    |m: String| m@,
                ).push(text@));
                messages.push(text);
            },
            None => {},
        }
        i = i + 1;
    }
    assert(rows@.take(rows.len() as int) =~= rows@);
    messages
}

/// The chat dialogs in `rows`, which the selection of every dialog gave:
/// one for each row whose three columns hold text.
pub fn chat_history(rows: &Vec<Vec<Cell>>) -> (dialogs: Vec<ChatDialog>)
    ensures
        dialogs@.map_values(|d: ChatDialog| d@) == dialogs_in(rows@),
{
    let ghost read = |row: Seq<Cell>| row_dialog(row);
    let mut dialogs: Vec<ChatDialog> = Vec::new();
    let mut i: usize = 0;
    assert(dialogs@.map_values(|d: ChatDialog| d@) =~= rows_read(rows@.take(0), read));
    while i < rows.len()
        invariant
            i <= rows.len(),
            read == |row: Seq<Cell>| row_dialog(row),
            dialogs@.map_values(|d: ChatDialog| d@) == rows_read(rows@.take(i as int), read),
        decreases rows.len() - i,
    {
        assert(rows@.take(i + 1).drop_last() =~= rows@.take(i as int));
        let row = &rows[i];
        match (cell_text(row, 0), cell_text(row, 1), cell_text(row, 2)) {
            (Some(id), Some(description), Some(messages)) => {
                let dialog = ChatDialog { id, description, messages };
                assert(dialogs@.push(dialog).map_values(|d: ChatDialog| d@) =~= dialogs@.map_values(
                    |d: ChatDialog| d@,
                ).push(dialog@));
                dialogs.push(dialog);
            },
            _ => {},
        }
        i = i + 1;
    }
    assert(rows@.take(rows.len() as int) =~= rows@);
    dialogs
}

/// The profiles in `rows`, which the selection of every profile gave: one
/// for each row whose first and third column hold text and whose second
/// holds text or a null.
pub fn profiles(rows: &Vec<Vec<Cell>>) -> (found: Vec<Profile>)
    ensures
        found@.map_values(|p: Profile| p@) == profiles_in(rows@),
{
    let ghost read = |row: Seq<Cell>| row_profile(row);
    let mut found: Vec<Profile> = Vec::new();
    let mut i: usize = 0;
    assert(found@.map_values(|p: Profile| p@) =~= rows_read(rows@.take(0), read));
    while i < rows.len()
        invariant
            i <= rows.len(),
            read == |row: Seq<Cell>| row_profile(row),
            found@.map_values(|p: Profile| p@) == rows_read(rows@.take(i as int), read),
        decreases rows.len() - i,
    {
        assert(rows@.take(i + 1).drop_last() =~= rows@.take(i as int));
        let row = &rows[i];
        let email = if 1 < row.len() {
            match &row[1] {
                Cell::Text(text) => Some(Some(text.clone())),
                Cell::Null => Some(None),
                Cell::Other => None,
            }
        } else {
            None
        };
        match (cell_text(row, 0), email, cell_text(row, 2)) {
            (Some(id), Some(email), Some(preferences)) => {
                let profile = Profile { id, email, preferences };
                assert(found@.push(profile).map_values(|p: Profile| p@) =~= found@.map_values(
                    |p: Profile| p@,
                ).push(profile@));
                found.push(profile);
            },
            _ => {},
        }
        i = i + 1;
    }
    assert(rows@.take(rows.len() as int) =~= rows@);
    found
}

} // verus!
