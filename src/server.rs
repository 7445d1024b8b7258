//! What the sending side serves, and the small decisions around it.
use vstd::prelude::*;
use vstd::string::StringExecFns;

verus! {

/// What the user asked to share.
pub enum Input<'a> {
    /// A text, served as it is or shown as a QR code.
    Text(&'a str),
    /// A single file, by path.
    File(&'a str),
    /// A directory whose files are listed, by path.
    Dir(&'a str),
}

/// Picks how `input` is shared. `path_kind` is `None` when `input` names no
/// file system entry, else whether it names a directory; `as_files` is whether
/// the user wants a path shared as file(s) rather than as text.
pub fn input_kind<'a>(input: &'a str, path_kind: Option<bool>, as_files: bool) -> (r: Input<'a>)
    ensures
        r == match path_kind {
            Some(true) if as_files => Input::Dir(input),
            Some(false) if as_files => Input::File(input),
            _ => Input::Text(input),
        },
{
    match path_kind {
        Some(true) if as_files => Input::Dir(input),
        Some(false) if as_files => Input::File(input),
        _ => Input::Text(input),
    }
}

/// The state the sending side serves from: the shared text or path, and the
/// address the server is reached at.
pub struct ServerState {
    input: String,
    server_addr: String,
}

impl ServerState {
    /// The shared text or path.
    pub closed spec fn input_spec(&self) -> Seq<char> {
        self.input@
    }

    /// The server's address, such as `http://10.0.0.2:4141/`.
    pub closed spec fn addr_spec(&self) -> Seq<char> {
        self.server_addr@
    }

    /// A state sharing `input` from a server at `server_addr`.
    pub fn new(input: String, server_addr: String) -> (r: ServerState)
        ensures
            r.input_spec() == input@,
            r.addr_spec() == server_addr@,
    {
        ServerState { input, server_addr }
    }

    /// The shared text or path.
    pub fn input(&self) -> (r: &str)
        ensures
            r@ == self.input_spec(),
    {
        self.input.as_str()
    }

    /// The server's address.
    pub fn server_addr(&self) -> (r: &str)
        ensures
            r@ == self.addr_spec(),
    {
        self.server_addr.as_str()
    }
}

/// The body served for a shared text: the text itself.
pub fn send_text(state: &ServerState) -> (r: String)
    ensures
        r@ == state.input_spec(),
{
    state.input.clone()
}

/// The download address of each file of a shared directory: the server's
/// address followed by the file's name.
pub fn dir_file_urls(state: &ServerState, names: &Vec<String>) -> (r: Vec<String>)
    ensures
        r@.len() == names@.len(),
        forall|i: int| 0 <= i < names@.len() ==> #[trigger] r@[i]@ == state.addr_spec() + names@[i]@,
{
    let mut r: Vec<String> = Vec::new();
    let mut i: usize = 0;
    while i < names.len()
        invariant
            i <= names@.len(),
            r@.len() == i,
            forall|j: int| 0 <= j < i ==> #[trigger] r@[j]@ == state.addr_spec() + names@[j]@,
        decreases names@.len() - i,
    {
        let mut u = String::from_str(state.server_addr.as_str());
        u.append(names[i].as_str());
        r.push(u);
        i = i + 1;
    }
    r
}

/// The answer to a yes/no prompt: a bare line break, `Y` or `y` is yes, `N` or `n`
/// is no (each followed by a line break), anything else asks again.
pub open spec fn answer_spec(line: Seq<u8>) -> Option<bool> {
    if line == seq![10u8] || line == seq![89u8, 10] || line == seq![121u8, 10] {
        Some(true)
    } else if line == seq![78u8, 10] || line == seq![110u8, 10] {
        Some(false)
    } else {
        None
    }
}

proof fn lemma_answer_lines()
    ensures
        seq![10u8].len() == 1 && seq![10u8][0] == 10u8,
        seq![89u8, 10].len() == 2 && seq![89u8, 10][0] == 89u8 && seq![89u8, 10][1] == 10u8,
        seq![121u8, 10].len() == 2 && seq![121u8, 10][0] == 121u8 && seq![121u8, 10][1] == 10u8,
        seq![78u8, 10].len() == 2 && seq![78u8, 10][0] == 78u8 && seq![78u8, 10][1] == 10u8,
        seq![110u8, 10].len() == 2 && seq![110u8, 10][0] == 110u8 && seq![110u8, 10][1] == 10u8,
{
}

/// Reads the answer to a yes/no prompt from the line typed, `None` when it is
/// neither.
pub fn parse_answer(line: &[u8]) -> (r: Option<bool>)
    ensures
        r == answer_spec(line@),
{
    proof {
        lemma_answer_lines();
    }
    if line.len() == 1 && line[0] == 10u8 {
        assert(line@ =~= seq![10u8]);
        return Some(true);
    }
    if line.len() == 2 && line[1] == 10u8 {
        let c = line[0];
        assert(line@ =~= seq![c, 10u8]);
        if c == 89u8 || c == 121u8 {
            return Some(true);
        }
        if c == 78u8 || c == 110u8 {
            return Some(false);
        }
    }
    None
}

/// The next step in choosing the network interface to serve on.
#[derive(PartialEq, Eq, Structural, Clone, Copy, Debug)]
pub enum IfaceChoice {
    /// No interface is suitable: serving fails.
    NoneSuitable,
    /// Serve on the interface at this index.
    Take(usize),
    /// List the interfaces and ask the user for an index.
    Ask,
}

/// Chooses among `count` suitable interfaces: the only one when there is one,
/// else the index the user typed (`None` before anything was typed), asking
/// again while that index is out of range.
pub fn choose_interface(count: usize, typed: Option<usize>) -> (r: IfaceChoice)
    ensures
        r == if count == 0 {
            IfaceChoice::NoneSuitable
        } else if count == 1 {
            IfaceChoice::Take(0)
        } else {
            match typed {
                Some(c) if c < count => IfaceChoice::Take(c),
                _ => IfaceChoice::Ask,
            }
        },
{
    if count == 0 {
        IfaceChoice::NoneSuitable
    } else if count == 1 {
        IfaceChoice::Take(0)
    } else {
        match typed {
            Some(c) if c < count => IfaceChoice::Take(c),
            _ => IfaceChoice::Ask,
        }
    }
}

} // verus!
