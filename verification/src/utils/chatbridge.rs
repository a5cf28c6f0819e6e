use vstd::prelude::*;

use crate::utils::error::ConnectionError;
use crate::utils::text::decimal_string;

verus! {

/// The part of mc-docker's own configuration that the bot reads: the port of
/// its web service.
pub struct McdConf {
    pub ws_port: u16,
}

/// A Minecraft server that mc-docker runs, and the Discord channel linked to
/// it.
pub struct Server {
    pub name: String,
    pub channel: u64,
}

/// The list of servers, as `servers.json` holds it.
pub struct Servers {
    pub servers: Vec<Server>,
}

/// The status of a server run by mc-docker.
pub struct Status {}

/// Why setting up the link to mc-docker failed.
#[derive(Clone, Copy, Debug, PartialEq, Eq)]
pub enum McdSetupFailure {
    ConfigMissing,
    ConfigUnparsable,
    ServersMissing,
    ServersUnparsable,
}

/// What the error of each setup failure says.
pub open spec fn setup_message(f: McdSetupFailure) -> Seq<char> {
    match f {
        McdSetupFailure::ConfigMissing => "Failed to find config.toml from mc-docker"@,
        McdSetupFailure::ConfigUnparsable => "Failed to parse mc-docker toml file"@,
        McdSetupFailure::ServersMissing => "Failed to find servers.json file"@,
        McdSetupFailure::ServersUnparsable => "Failed to parse servers.json file"@,
    }
}

/// The connection error that reports a setup failure.
pub fn setup_error(f: McdSetupFailure) -> (e: ConnectionError)
    ensures
        e@ == setup_message(f),
{
    match f {
        McdSetupFailure::ConfigMissing => ConnectionError::from(
            "Failed to find config.toml from mc-docker",
        ),
        McdSetupFailure::ConfigUnparsable => ConnectionError::from(
            "Failed to parse mc-docker toml file",
        ),
        McdSetupFailure::ServersMissing => ConnectionError::from("Failed to find servers.json file"),
        McdSetupFailure::ServersUnparsable => ConnectionError::from(
            "Failed to parse servers.json file",
        ),
    }
}

/// The servers of a list filed under their names, in the order of the list,
/// so that of two servers with one name the later one is kept.
pub open spec fn server_table(list: Seq<Server>) -> Map<Seq<char>, Server>
    decreases list.len(),
{
    if list.len() == 0 {
        Map::empty()
    } else {
        server_table(list.drop_last()).insert(list.last().name@, list.last())
    }
}

/// No two servers of the list share a name.
pub open spec fn names_unique(list: Seq<Server>) -> bool {
    forall|i: int, j: int|
        0 <= i < j < list.len() ==> #[trigger] list[i].name@ != #[trigger] list[j].name@
}

/// The names filed in the table of a list are those of its servers.
proof fn lemma_table_dom(list: Seq<Server>, k: Seq<char>)
    ensures
        server_table(list).contains_key(k) <==> exists|i: int|
            0 <= i < list.len() && #[trigger] list[i].name@ == k,
    decreases list.len(),
{
    if list.len() > 0 {
        let init = list.drop_last();
        lemma_table_dom(init, k);
        if server_table(init).contains_key(k) {
            let i = choose|i: int| 0 <= i < init.len() && #[trigger] init[i].name@ == k;
            assert(list[i].name@ == k);
        }
        if exists|i: int| 0 <= i < list.len() && #[trigger] list[i].name@ == k {
            let i = choose|i: int| 0 <= i < list.len() && #[trigger] list[i].name@ == k;
            if i < list.len() - 1 {
                assert(init[i].name@ == k);
            }
        }
    }
}

/// In a list whose names are unique, each server is filed under its name.
proof fn lemma_table_entry(list: Seq<Server>, i: int)
    requires
        names_unique(list),
        0 <= i < list.len(),
    ensures
        server_table(list).contains_key(list[i].name@),
        server_table(list)[list[i].name@] == list[i],
    decreases list.len(),
{
    if i < list.len() - 1 {
        let init = list.drop_last();
        assert(init[i] == list[i]);
        assert(names_unique(init)) by {
            assert forall|a: int, b: int| 0 <= a < b < init.len() implies #[trigger] init[a].name@
                != #[trigger] init[b].name@ by {
                assert(list[a].name@ != list[b].name@);
            }
        }
        lemma_table_entry(init, i);
        assert(list[i].name@ != list[list.len() - 1].name@);
    }
}

/// Replacing a server by one of the same name in a list whose names are
/// unique files the new one under that name.
proof fn lemma_table_update(list: Seq<Server>, j: int, x: Server)
    requires
        names_unique(list),
        0 <= j < list.len(),
        list[j].name@ == x.name@,
    ensures
        server_table(list.update(j, x)) == server_table(list).insert(x.name@, x),
        names_unique(list.update(j, x)),
    decreases list.len(),
{
    let new_list = list.update(j, x);
    assert forall|a: int, b: int| 0 <= a < b < new_list.len() implies #[trigger] new_list[a].name@
        != #[trigger] new_list[b].name@ by {
        assert(list[a].name@ != list[b].name@);
    }
    let init = list.drop_last();
    if j == list.len() - 1 {
        assert(new_list.drop_last() =~= init);
        assert(server_table(new_list) =~= server_table(list).insert(x.name@, x));
    } else {
        assert(new_list.drop_last() =~= init.update(j, x));
        assert(names_unique(init)) by {
            assert forall|a: int, b: int| 0 <= a < b < init.len() implies #[trigger] init[a].name@
                != #[trigger] init[b].name@ by {
                assert(list[a].name@ != list[b].name@);
            }
        }
        lemma_table_update(init, j, x);
        assert(list[j].name@ != list.last().name@);
        assert(server_table(new_list) =~= server_table(list).insert(x.name@, x));
    }
}

/// The link to mc-docker: its configuration and the servers that it runs,
/// each under its own name.
pub struct Mcd {
    servers: Vec<Server>,
    config: McdConf,
}

impl Mcd {
    #[verifier::type_invariant]
    spec fn names_are_unique(&self) -> bool {
        names_unique(self.servers@)
    }

    /// The servers, by name.
    pub closed spec fn table(&self) -> Map<Seq<char>, Server> {
        server_table(self.servers@)
    }

    /// The port of mc-docker's web service.
    pub closed spec fn port(&self) -> u16 {
        self.config.ws_port
    }

    /// The link made from mc-docker's configuration and the list of servers,
    /// each server filed under its name; of two servers with one name the
    /// later one is kept.
    pub fn assemble(config: McdConf, servers: Servers) -> (m: Mcd)
        ensures
            m.table() == server_table(servers.servers@),
            m.port() == config.ws_port,
    {
        let ghost all = servers.servers@;
        let mut table: Vec<Server> = Vec::new();
        for server in it: servers.servers
            invariant
                all == it.seq(),
                names_unique(table@),
                server_table(table@) == server_table(all.take(it.index())),
        {
            proof {
                assert(all.take(it.index() + 1).drop_last() =~= all.take(it.index()));
                assert(all.take(it.index() + 1).last() == server);
            }
            let mut found: Option<usize> = None;
            let n = table.len();
            let mut i: usize = 0;
            while i < n
                invariant
                    n == table.len(),
                    0 <= i <= n,
                    match found {
                        Some(j) => j < n && table@[j as int].name@ == server.name@,
                        None => forall|k: int| 0 <= k < i ==> #[trigger] table@[k].name@ != server.name@,
                    },
                decreases n - i,
            {
                if found.is_none() && table[i].name == server.name {
                    found = Some(i);
                }
                i = i + 1;
            }
            match found {
                Some(j) => {
                    proof {
                        lemma_table_update(table@, j as int, server);
                    }
                    table.set(j, server);
                },
                None => {
                    proof {
                        assert(table@.push(server).drop_last() =~= table@);
                        assert forall|a: int, b: int|
                            0 <= a < b < table@.len() + 1 implies #[trigger] table@.push(server)[a].name@
                            != #[trigger] table@.push(server)[b].name@ by {
                            if b == table@.len() {
                                assert(table@[a].name@ != server.name@);
                            }
                        }
                    }
                    table.push(server);
                },
            }
        }
        proof {
            assert(all.take(all.len() as int) =~= all);
        }
        Mcd { servers: table, config }
    }

    /// The position of the server named `name`, if there is one.
    fn find(&self, name: &String) -> (pos: Option<usize>)
        ensures
            match pos {
                Some(i) => i < self.servers@.len() && self.servers@[i as int].name@ == name@,
                None => !self.table().contains_key(name@),
            },
    {
        let n = self.servers.len();
        let mut i: usize = 0;
        while i < n
            invariant
                n == self.servers@.len(),
                0 <= i <= n,
                forall|k: int| 0 <= k < i ==> #[trigger] self.servers@[k].name@ != name@,
            decreases n - i,
        {
            if self.servers[i].name == *name {
                return Some(i);
            }
            i = i + 1;
        }
        proof {
            lemma_table_dom(self.servers@, name@);
        }
        None
    }

    /// Whether a server is named `name`.
    pub fn has_server(&self, name: &String) -> (b: bool)
        ensures
            b == self.table().contains_key(name@),
    {
        proof {
            use_type_invariant(self);
        }
        match self.find(name) {
            Some(i) => {
                proof {
                    lemma_table_entry(self.servers@, i as int);
                }
                true
            },
            None => false,
        }
    }

    /// The request that runs `cmd` on the server named `s`: the address of
    /// mc-docker's exec endpoint for that server, and the body that lists the
    /// words of the command.
    pub fn exec_request(&self, s: &String, cmd: &Vec<String>) -> (req: (String, String))
        requires
            self.table().contains_key(s@),
            cmd.len() >= 1,
        ensures
            req.0@ == "https://localhost:"@ + crate::utils::text::decimal(self.port() as nat) + "/exec/"@
                + s@,
            req.1@ == "{\"args\":["@ + joined_args(arg_views(cmd@)) + "]}"@,
    {
        proof {
            use_type_invariant(self);
        }
        let pos = self.find(s);
        let i = match pos {
            Some(i) => i,
            None => {
                return (String::new(), String::new());
            },
        };
        proof {
            lemma_table_entry(self.servers@, i as int);
        }
        let server = &self.servers[i];
        let mut url = "https://localhost:".to_owned();
        url.append(decimal_string(self.config.ws_port as u64).as_str());
        url.append("/exec/");
        url.append(server.name.as_str());
        let mut body = "{\"args\":[".to_owned();
        body.append(join_args(cmd).as_str());
        body.append("]}");
        (url, body)
    }

    /// The command that shows `msg` to every player on the server named `s`,
    /// tagged with the server's name.
    pub fn tellraw_command(s: &str, msg: &str) -> (cmd: Vec<String>)
        ensures
            cmd@.len() == 3,
            cmd@[0]@ == "tellraw"@,
            cmd@[1]@ == "@a"@,
            cmd@[2]@ == "{\\\"text\\\":\\\"["@ + s@ + "] "@ + msg@ + "\\\"}"@,
    {
        let mut text = "{\\\"text\\\":\\\"[".to_owned();
        text.append(s);
        text.append("] ");
        text.append(msg);
        text.append("\\\"}");
        let mut cmd: Vec<String> = Vec::new();
        cmd.push("tellraw".to_owned());
        cmd.push("@a".to_owned());
        cmd.push(text);
        cmd
    }
}

/// The views of the words of a command.
pub open spec fn arg_views(cmd: Seq<String>) -> Seq<Seq<char>> {
    cmd.map_values(|w: String| w@)
}

/// `s` in double quotes.
pub open spec fn quoted(s: Seq<char>) -> Seq<char> {
    "\""@ + s + "\""@
}

/// The words of a command as mc-docker's request body lists them: each word
/// quoted, in order, separated by commas.
pub open spec fn joined_args(cmd: Seq<Seq<char>>) -> Seq<char>
    decreases cmd.len(),
{
    if cmd.len() <= 1 {
        quoted(cmd[0])
    } else {
        joined_args(cmd.drop_last()) + ","@ + quoted(cmd.last())
    }
}

fn join_args(cmd: &Vec<String>) -> (s: String)
    requires
        cmd.len() >= 1,
    ensures
        s@ == joined_args(arg_views(cmd@)),
{
    let mut acc = "\"".to_owned();
    acc.append(cmd[0].as_str());
    acc.append("\"");
    proof {
        assert(arg_views(cmd@).take(1)[0] == cmd@[0]@);
    }
    let n = cmd.len();
    let mut i: usize = 1;
    while i < n
        invariant
            n == cmd.len(),
            1 <= i <= n,
            acc@ == joined_args(arg_views(cmd@).take(i as int)),
        decreases n - i,
    {
        proof {
            assert(arg_views(cmd@).take(i + 1).drop_last() =~= arg_views(cmd@).take(i as int));
        }
        acc.append(",");
        acc.append("\"");
        acc.append(cmd[i].as_str());
        acc.append("\"");
        i = i + 1;
    }
    proof {
        assert(arg_views(cmd@).take(n as int) =~= arg_views(cmd@));
    }
    acc
}


/// Filing a list of servers by name files each name that occurs in the list,
/// and no other, under the last server of the list that has it.
pub proof fn law_server_table_keeps_last(list: Seq<Server>, k: Seq<char>)
    ensures
        server_table(list).contains_key(k) <==> exists|i: int|
            0 <= i < list.len() && #[trigger] list[i].name@ == k,
        server_table(list).contains_key(k) ==> exists|i: int|
            #![trigger list[i]]
            0 <= i < list.len() && list[i].name@ == k && server_table(list)[k] == list[i]
                && forall|j: int| i < j < list.len() ==> #[trigger] list[j].name@ != k,
    decreases list.len(),
{
    lemma_table_dom(list, k);
    if list.len() > 0 {
        let init = list.drop_last();
        law_server_table_keeps_last(init, k);
        let last = list.len() - 1;
        if list[last].name@ == k {
            assert(list[last] == list.last());
        } else if server_table(init).contains_key(k) {
            let i = choose|i: int|
                #![trigger init[i]]
                0 <= i < init.len() && init[i].name@ == k && server_table(init)[k] == init[i]
                    && forall|j: int| i < j < init.len() ==> #[trigger] init[j].name@ != k;
            assert(list[i] == init[i]);
            assert forall|j: int| i < j < list.len() implies #[trigger] list[j].name@ != k by {
                if j < init.len() {
                    assert(list[j] == init[j]);
                }
            }
        }
    }
}


/// A single word is listed quoted.
pub proof fn law_joined_args_one(word: Seq<char>)
    ensures
        joined_args(seq![word]) == "\""@ + word + "\""@,
{
}

/// Every word of a command is listed, in order: the list of two commands put
/// together is the list of the first, a comma, and the list of the second.
pub proof fn law_joined_args_concat(a: Seq<Seq<char>>, b: Seq<Seq<char>>)
    requires
        a.len() >= 1,
        b.len() >= 1,
    ensures
        joined_args(a + b) == joined_args(a) + ","@ + joined_args(b),
    decreases b.len(),
{
    if b.len() == 1 {
        assert((a + b).drop_last() =~= a);
        assert((a + b).last() == b[0]);
        assert(joined_args(a + b) =~= joined_args(a) + ","@ + joined_args(b));
    } else {
        assert((a + b).drop_last() =~= a + b.drop_last());
        assert((a + b).last() == b.last());
        law_joined_args_concat(a, b.drop_last());
        assert(joined_args(a + b) =~= joined_args(a) + ","@ + joined_args(b));
    }
}

} // verus!
