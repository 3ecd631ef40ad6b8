//! The request format: one line holding a JSON object whose `commands` array
//! lists the commands to run, in order.
use crate::json::{json_of, parse_json, Json};
use vstd::prelude::*;

verus! {

/// The operations a client can ask for.
#[derive(Clone, Copy, Debug, PartialEq, Eq, Structural)]
pub enum Command {
    Get,
    SetValue,
    Delete,
    Exists,
    Keys,
}

/// One parsed command. Which fields a command needs is decided when it runs,
/// not when it is parsed.
#[derive(Debug)]
pub struct CommandRequest {
    pub command: Command,
    pub key: Option<String>,
    pub value: Option<String>,
    /// Time to live, in seconds.
    pub expiration: Option<u64>,
    pub pattern: Option<String>,
}

/// The mathematical content of a `CommandRequest`.
pub struct CommandModel {
    pub command: Command,
    pub key: Option<Seq<char>>,
    pub value: Option<Seq<char>>,
    pub expiration: Option<u64>,
    pub pattern: Option<Seq<char>>,
}

pub open spec fn opt_text(o: Option<String>) -> Option<Seq<char>> {
    match o {
        Some(s) => Some(s@),
        None => None,
    }
}

impl View for CommandRequest {
    type V = CommandModel;

    open spec fn view(&self) -> CommandModel {
        CommandModel {
            command: self.command,
            key: opt_text(self.key),
            value: opt_text(self.value),
            expiration: self.expiration,
            pattern: opt_text(self.pattern),
        }
    }
}

/// The commands of one request line, in the order they run.
#[derive(Debug)]
pub struct Request {
    pub commands: Vec<CommandRequest>,
}

impl View for Request {
    type V = Seq<CommandModel>;

    open spec fn view(&self) -> Seq<CommandModel> {
        self.commands@.map_values(|c: CommandRequest| c@)
    }
}

/// Why a request line could not be read; the message is meant for people.
#[derive(Debug)]
pub struct ParseError {
    pub message: String,
}

/// The command a name stands for: each command's name as written here or in
/// capitals, and `DEL` for `Delete`.
pub open spec fn command_named(name: Seq<char>) -> Option<Command> {
    if name == "Get"@ || name == "GET"@ {
        Some(Command::Get)
    } else if name == "Set"@ || name == "SET"@ {
        Some(Command::SetValue)
    } else if name == "Delete"@ || name == "DELETE"@ || name == "DEL"@ {
        Some(Command::Delete)
    } else if name == "Exists"@ || name == "EXISTS"@ {
        Some(Command::Exists)
    } else if name == "Keys"@ || name == "KEYS"@ {
        Some(Command::Keys)
    } else {
        None
    }
}

/// The value of the first member of an object named `name`.
pub open spec fn member(entries: Seq<(String, Json)>, name: Seq<char>) -> Option<Json>
    decreases entries.len(),
{
    if entries.len() == 0 {
        None
    } else if entries[0].0@ == name {
        Some(entries[0].1)
    } else {
        member(entries.drop_first(), name)
    }
}

/// An optional text member: absent or `null` gives `Some(None)`, a string
/// gives its text, any other value is a type error (`None`).
pub open spec fn text_member(m: Option<Json>) -> Option<Option<Seq<char>>> {
    match m {
        None => Some(None),
        Some(Json::Null) => Some(None),
        Some(Json::Str(s)) => Some(Some(s@)),
        _ => None,
    }
}

/// An optional count member: absent or `null` gives `Some(None)`, a number
/// that fits a `u64` gives it, any other value is a type error (`None`).
pub open spec fn count_member(m: Option<Json>) -> Option<Option<u64>> {
    match m {
        None => Some(None),
        Some(Json::Null) => Some(None),
        Some(Json::Number(Some(n))) => Some(Some(n)),
        _ => None,
    }
}

/// The name member of a command object, when it names a command.
pub open spec fn command_member(m: Option<Json>) -> Option<Command> {
    match m {
        Some(Json::Str(s)) => command_named(s@),
        _ => None,
    }
}

/// The command a JSON value describes, if it describes one.
pub open spec fn command_model(j: Json) -> Option<CommandModel> {
    match j {
        Json::Object(es) => {
            let c = command_member(member(es@, "command"@));
            let k = text_member(member(es@, "key"@));
            let v = text_member(member(es@, "value"@));
            let e = count_member(member(es@, "expiration"@));
            let p = text_member(member(es@, "pattern"@));
            if c is Some && k is Some && v is Some && e is Some && p is Some {
                Some(
                    CommandModel {
                        command: c->0,
                        key: k->0,
                        value: v->0,
                        expiration: e->0,
                        pattern: p->0,
                    },
                )
            } else {
                None
            }
        },
        _ => None,
    }
}

/// The commands a JSON value describes: an object whose `commands` member is
/// an array of command objects.
pub open spec fn request_model(j: Json) -> Option<Seq<CommandModel>> {
    match j {
        Json::Object(es) => match member(es@, "commands"@) {
            Some(Json::Array(items)) => {
                if forall|i: int| 0 <= i < items@.len() ==> (#[trigger] command_model(items@[i])) is Some {
                    Some(Seq::new(items@.len(), |i: int| command_model(items@[i])->0))
                } else {
                    None
                }
            },
            _ => None,
        },
        _ => None,
    }
}

/// The commands a request line describes, if it is a well-formed request.
pub open spec fn request_of_text(text: Seq<char>) -> Option<Seq<CommandModel>> {
    match json_of(text) {
        Some(j) => request_model(j),
        None => None,
    }
}

/// The command a text describes, if it is one well-formed command object.
pub open spec fn command_of_text(text: Seq<char>) -> Option<CommandModel> {
    match json_of(text) {
        Some(j) => command_model(j),
        None => None,
    }
}

fn same_text(s: &String, lit: &str) -> (r: bool)
    ensures
        r == (s@ == lit@),
{
    let t = lit.to_owned();
    s.eq(&t)
}

/// Maps a command name to its command.
pub fn command_from_name(name: &String) -> (r: Option<Command>)
    ensures
        r == command_named(name@),
{
    if same_text(name, "Get") || same_text(name, "GET") {
        Some(Command::Get)
    } else if same_text(name, "Set") || same_text(name, "SET") {
        Some(Command::SetValue)
    } else if same_text(name, "Delete") || same_text(name, "DELETE") || same_text(name, "DEL") {
        Some(Command::Delete)
    } else if same_text(name, "Exists") || same_text(name, "EXISTS") {
        Some(Command::Exists)
    } else if same_text(name, "Keys") || same_text(name, "KEYS") {
        Some(Command::Keys)
    } else {
        None
    }
}

fn find_member<'a>(entries: &'a Vec<(String, Json)>, name: &str) -> (r: Option<&'a Json>)
    ensures
        match r {
            Some(j) => member(entries@, name@) == Some(*j),
            None => member(entries@, name@) is None,
        },
{
    let n = entries.len();
    let mut i: usize = 0;
    assert(entries@.subrange(0, n as int) =~= entries@);
    while i < n
        invariant
            n == entries@.len(),
            i <= n,
            member(entries@, name@) == member(entries@.subrange(i as int, n as int), name@),
        decreases n - i,
    {
        assert(entries@.subrange(i as int, n as int).drop_first() =~= entries@.subrange(
            i + 1,
            n as int,
        ));
        if same_text(&entries[i].0, name) {
            return Some(&entries[i].1);
        }
        i = i + 1;
    }
    None
}

fn text_from(m: Option<&Json>, name: &str) -> (r: Result<Option<String>, ParseError>)
    ensures
        match r {
            Ok(t) => text_member(match m { Some(j) => Some(*j), None => None }) == Some(opt_text(t)),
            Err(_) => text_member(match m { Some(j) => Some(*j), None => None }) is None,
        },
{
    match m {
        None => Ok(None),
        Some(Json::Null) => Ok(None),
        Some(Json::Str(s)) => Ok(Some(s.clone())),
        Some(_) => Err(field_error(name)),
    }
}

fn count_from(m: Option<&Json>, name: &str) -> (r: Result<Option<u64>, ParseError>)
    ensures
        match r {
            Ok(c) => count_member(match m { Some(j) => Some(*j), None => None }) == Some(c),
            Err(_) => count_member(match m { Some(j) => Some(*j), None => None }) is None,
        },
{
    match m {
        None => Ok(None),
        Some(Json::Null) => Ok(None),
        Some(Json::Number(Some(n))) => Ok(Some(*n)),
        Some(_) => Err(field_error(name)),
    }
}

fn field_error(name: &str) -> ParseError {
    let mut message = "invalid type for field `".to_owned();
    message.append(name);
    message.append("`");
    ParseError { message }
}

/// Reads one command from a JSON value.
pub fn command_from_json(j: &Json) -> (r: Result<CommandRequest, ParseError>)
    ensures
        r is Ok <==> command_model(*j) is Some,
        r is Ok ==> r->Ok_0@ == command_model(*j)->0,
{
    let es = match j {
        Json::Object(es) => es,
        _ => {
            return Err(ParseError { message: "a command must be a JSON object".to_owned() });
        },
    };
    let command = match find_member(es, "command") {
        Some(Json::Str(name)) => match command_from_name(name) {
            Some(c) => c,
            None => {
                let mut message = "unknown command `".to_owned();
                message.append(name.as_str());
                message.append("`");
                return Err(ParseError { message });
            },
        },
        Some(_) => {
            return Err(field_error("command"));
        },
        None => {
            return Err(ParseError { message: "missing field `command`".to_owned() });
        },
    };
    let key = text_from(find_member(es, "key"), "key")?;
    let value = text_from(find_member(es, "value"), "value")?;
    let expiration = count_from(find_member(es, "expiration"), "expiration")?;
    let pattern = text_from(find_member(es, "pattern"), "pattern")?;
    Ok(CommandRequest { command, key, value, expiration, pattern })
}

/// Reads a request from a JSON value: an object whose `commands` member is an
/// array of command objects.
pub fn request_from_json(j: &Json) -> (r: Result<Request, ParseError>)
    ensures
        r is Ok <==> request_model(*j) is Some,
        r is Ok ==> r->Ok_0@ == request_model(*j)->0,
{
    let es = match j {
        Json::Object(es) => es,
        _ => {
            return Err(ParseError { message: "a request must be a JSON object".to_owned() });
        },
    };
    let items = match find_member(es, "commands") {
        Some(Json::Array(items)) => items,
        Some(_) => {
            return Err(field_error("commands"));
        },
        None => {
            return Err(ParseError { message: "missing field `commands`".to_owned() });
        },
    };
    let mut commands: Vec<CommandRequest> = Vec::new();
    let n = items.len();
    let mut i: usize = 0;
    while i < n
        invariant
            *j == Json::Object(*es),
            member(es@, "commands"@) == Some(Json::Array(*items)),
            n == items@.len(),
            i <= n,
            commands@.len() == i,
            forall|k: int| 0 <= k < i ==> (#[trigger] command_model(items@[k])) is Some,
            forall|k: int| 0 <= k < i ==> #[trigger] commands@[k]@ == command_model(items@[k])->0,
        decreases n - i,
    {
        match command_from_json(&items[i]) {
            Ok(c) => commands.push(c),
            Err(e) => {
                assert(command_model(items@[i as int]) is None);
                return Err(e);
            },
        }
        i = i + 1;
    }
    let r = Request { commands };
    assert(r@ =~= Seq::new(items@.len(), |k: int| command_model(items@[k])->0));
    Ok(r)
}

/// Parses one request line.
pub fn parse_request(line: &str) -> (r: Result<Request, ParseError>)
    ensures
        r is Ok <==> request_of_text(line@) is Some,
        r is Ok ==> r->Ok_0@ == request_of_text(line@)->0,
{
    match parse_json(line) {
        Ok(j) => request_from_json(&j),
        Err(message) => Err(ParseError { message }),
    }
}

/// Parses the text of a single command object.
pub fn parse_command(text: &str) -> (r: Result<CommandRequest, ParseError>)
    ensures
        r is Ok <==> command_of_text(text@) is Some,
        r is Ok ==> r->Ok_0@ == command_of_text(text@)->0,
{
    match parse_json(text) {
        Ok(j) => command_from_json(&j),
        Err(message) => Err(ParseError { message }),
    }
}

} // verus!
