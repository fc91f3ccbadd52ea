//! What a node is configured with.
use crate::text::text_equal;
use vstd::prelude::*;

verus! {

/// A participant: where it listens and the account that it acts for.
#[derive(Debug)]
pub struct ActorConfig {
    pub name: String,
    pub host: Option<String>,
    pub port: Option<u16>,
    pub private_key: String,
    pub address: [u8; 20],
}

/// The contracts on the chain.
#[derive(Debug, Clone, Copy)]
pub struct ContractsConfig {
    pub payment_channel: [u8; 20],
}

/// The configuration of the whole channel.
#[derive(Debug)]
pub struct AppConfig {
    pub rpc_url: String,
    pub contracts: Option<ContractsConfig>,
    pub operator: ActorConfig,
    pub users: Vec<ActorConfig>,
}

impl Clone for ActorConfig {
    fn clone(&self) -> (res: ActorConfig)
        ensures
            res == *self,
    {
        ActorConfig {
            name: self.name.clone(),
            host: match &self.host {
                Some(host) => Some(host.clone()),
                None => None,
            },
            port: self.port,
            private_key: self.private_key.clone(),
            address: self.address,
        }
    }
}

/// Whether `i` is the first of the users with the given name.
pub open spec fn is_first_named(users: Seq<ActorConfig>, name: Seq<char>, i: int) -> bool {
    &&& 0 <= i < users.len()
    &&& users[i].name@ == name
    &&& forall|j: int| 0 <= j < i ==> (#[trigger] users[j]).name@ != name
}

/// Whether one of the users has the given name.
pub open spec fn is_configured(users: Seq<ActorConfig>, name: Seq<char>) -> bool {
    exists|i: int| 0 <= i < users.len() && (#[trigger] users[i]).name@ == name
}

impl AppConfig {
    /// The first user with the given name.
    pub fn find_user(&self, name: &str) -> (res: Option<&ActorConfig>)
        ensures
            match res {
                Some(user) => exists|i: int|
                    is_first_named(self.users@, name@, i) && *user == #[trigger] self.users@[i],
                None => !is_configured(self.users@, name@),
            },
    {
        let mut i: usize = 0;
        while i < self.users.len()
            invariant
                i <= self.users.len(),
                forall|j: int| 0 <= j < i ==> (#[trigger] self.users@[j]).name@ != name@,
            decreases self.users.len() - i,
        {
            if text_equal(self.users[i].name.as_str(), name) {
                assert(is_first_named(self.users@, name@, i as int));
                return Some(&self.users[i]);
            }
            i += 1;
        }
        None
    }

    /// The port of the first user with the given name.
    pub fn get_user_port(&self, name: &str) -> (res: Option<u16>)
        ensures
            forall|i: int| #[trigger]
                is_first_named(self.users@, name@, i) ==> res == self.users@[i].port,
            !is_configured(self.users@, name@) ==> res is None,
    {
        match self.find_user(name) {
            Some(user) => user.port,
            None => None,
        }
    }

    /// The host of the first user with the given name.
    pub fn get_user_host(&self, name: &str) -> (res: Option<String>)
        ensures
            forall|i: int| #[trigger]
                is_first_named(self.users@, name@, i) ==> res == self.users@[i].host,
            !is_configured(self.users@, name@) ==> res is None,
    {
        match self.find_user(name) {
            Some(user) => match &user.host {
                Some(host) => Some(host.clone()),
                None => None,
            },
            None => None,
        }
    }
}

/// Where the users listen who say where: their hosts and ports in the order of the configuration.
pub open spec fn endpoints_of(users: Seq<ActorConfig>) -> Seq<(Seq<char>, u16)>
    decreases users.len(),
{
    if users.len() == 0 {
        Seq::empty()
    } else {
        let head = endpoints_of(users.drop_last());
        match (users.last().host, users.last().port) {
            (Some(host), Some(port)) => head.push((host@, port)),
            _ => head,
        }
    }
}

/// The hosts and ports that a list holds.
pub open spec fn endpoint_texts(list: Seq<(String, u16)>) -> Seq<(Seq<char>, u16)> {
    list.map_values(|e: (String, u16)| (e.0@, e.1))
}

impl ActorConfig {
    /// The port that a user listens on.
    pub fn listen_port(&self) -> (res: u16)
        ensures
            res == match self.port {
                Some(port) => port,
                None => 6000u16,
            },
    {
        match self.port {
            Some(port) => port,
            None => 6000,
        }
    }
}

impl AppConfig {
    /// The port on which the operator takes requests.
    pub fn reply_port(&self) -> (res: u16)
        ensures
            res == match self.operator.port {
                Some(port) => port,
                None => 5555u16,
            },
    {
        match self.operator.port {
            Some(port) => port,
            None => 5555,
        }
    }

    /// The host of the operator.
    pub fn operator_host(&self) -> (res: String)
        ensures
            res@ == match self.operator.host {
                Some(host) => host@,
                None => "127.0.0.1"@,
            },
    {
        match &self.operator.host {
            Some(host) => host.clone(),
            None => "127.0.0.1".to_owned(),
        }
    }

    /// Where the users are asked for votes.
    pub fn vote_endpoints(&self) -> (res: Vec<(String, u16)>)
        ensures
            endpoint_texts(res@) == endpoints_of(self.users@),
    {
        let mut res: Vec<(String, u16)> = Vec::new();
        let mut i: usize = 0;
        assert(self.users@.take(0) =~= Seq::<ActorConfig>::empty());
        assert(endpoint_texts(res@) =~= endpoints_of(self.users@.take(0)));
        while i < self.users.len()
            invariant
                i <= self.users.len(),
                endpoint_texts(res@) == endpoints_of(self.users@.take(i as int)),
            decreases self.users.len() - i,
        {
            let ghost before = res@;
            let ghost next = self.users@.take(i + 1);
            assert(next.drop_last() =~= self.users@.take(i as int));
            assert(next.last() == self.users@[i as int]);
            if let (Some(host), Some(port)) = (&self.users[i].host, self.users[i].port) {
                res.push((host.clone(), port));
                assert(endpoint_texts(res@) =~= endpoint_texts(before).push((host@, port)));
            }
            i += 1;
        }
        assert(self.users@.take(i as int) =~= self.users@);
        res
    }
}

/// The port on which the operator announces messages to all: the one after that for requests.
pub fn publish_port(reply_port: u16) -> (res: u16)
    requires
        reply_port < u16::MAX,
    ensures
        res == reply_port + 1,
{
    reply_port + 1
}

/// The user that is found has the name that was asked for, and none before it has; its port and its host
/// are those that are given for the name. A name that nobody has gives nothing.
pub proof fn names_lead_to_users(
    config: &AppConfig,
    name: &str,
    user: Option<&ActorConfig>,
    port: Option<u16>,
    host: Option<String>,
)
    requires
        call_ensures(AppConfig::find_user, (config, name), user),
        call_ensures(AppConfig::get_user_port, (config, name), port),
        call_ensures(AppConfig::get_user_host, (config, name), host),
    ensures
        forall|i: int|
            0 <= i < config.users@.len() && (#[trigger] config.users@[i]).name@ == name@ && (
            forall|j: int| 0 <= j < i ==> (#[trigger] config.users@[j]).name@ != name@) ==> {
                &&& user == Some(&config.users@[i])
                &&& port == config.users@[i].port
                &&& host == config.users@[i].host
            },
        (forall|i: int| 0 <= i < config.users@.len() ==> (#[trigger] config.users@[i]).name@ != name@)
            ==> user is None && port is None && host is None,
{
    assert forall|i: int|
        0 <= i < config.users@.len() && (#[trigger] config.users@[i]).name@ == name@ && (forall|
            j: int,
        |
            0 <= j < i ==> (#[trigger] config.users@[j]).name@ != name@) implies {
        &&& user == Some(&config.users@[i])
        &&& port == config.users@[i].port
        &&& host == config.users@[i].host
    } by {
        assert(is_first_named(config.users@, name@, i));
        assert(user is Some);
        let k = choose|k: int|
            is_first_named(config.users@, name@, k) && *user.unwrap()
                == #[trigger] config.users@[k];
        assert(!(k < i) && !(i < k));
    }
}

/// The endpoints of users are those of each user in turn: one that gives a host and a port brings these,
/// and any other brings none.
pub proof fn endpoints_are_those_of_each_user(
    first: Seq<ActorConfig>,
    second: Seq<ActorConfig>,
    user: ActorConfig,
)
    ensures
        endpoints_of(Seq::empty()) == Seq::<(Seq<char>, u16)>::empty(),
        endpoints_of(first + second) == endpoints_of(first) + endpoints_of(second),
        user.host is None || user.port is None ==> endpoints_of(seq![user]).len() == 0,
        user.host is Some && user.port is Some ==> endpoints_of(seq![user])
            == seq![(user.host.unwrap()@, user.port.unwrap())],
    decreases second.len(),
{
    assert(seq![user].drop_last() =~= Seq::<ActorConfig>::empty());
    assert(endpoints_of(Seq::<ActorConfig>::empty()) =~= Seq::<(Seq<char>, u16)>::empty());
    assert(seq![user].last() == user);
    if user.host is Some && user.port is Some {
        assert(endpoints_of(seq![user]) =~= seq![(user.host.unwrap()@, user.port.unwrap())]);
    }
    if second.len() == 0 {
        assert(first + second =~= first);
        assert(endpoints_of(first) + endpoints_of(second) =~= endpoints_of(first));
    } else {
        let head = second.drop_last();
        endpoints_are_those_of_each_user(first, head, user);
        let all = first + second;
        assert(all.drop_last() =~= first + head);
        assert(all.last() == second.last());
        assert(endpoints_of(all) =~= endpoints_of(first) + endpoints_of(second));
    }
}

/// The votes are asked for at the endpoints of all the users, in their order.
pub proof fn everyone_is_asked(config: &AppConfig, res: Vec<(String, u16)>)
    requires
        call_ensures(AppConfig::vote_endpoints, (config,), res),
    ensures
        res@.len() == endpoints_of(config.users@).len(),
        forall|i: int|
            0 <= i < res@.len() ==> {
                &&& (#[trigger] res@[i]).0@ == endpoints_of(config.users@)[i].0
                &&& res@[i].1 == endpoints_of(config.users@)[i].1
            },
{
    let listed = endpoint_texts(res@);
    assert(listed.len() == res@.len());
    assert forall|i: int| 0 <= i < res@.len() implies {
        &&& (#[trigger] res@[i]).0@ == endpoints_of(config.users@)[i].0
        &&& res@[i].1 == endpoints_of(config.users@)[i].1
    } by {
        assert(listed[i] == (res@[i].0@, res@[i].1));
    }
}

/// A port or a host that is configured is taken as it is, and only one that is not is made up for.
pub proof fn configured_endpoints_are_kept(
    config: &AppConfig,
    user: &ActorConfig,
    host: String,
    reply: u16,
    publish: u16,
    listen: u16,
)
    requires
        call_ensures(AppConfig::operator_host, (config,), host),
        call_ensures(AppConfig::reply_port, (config,), reply),
        reply < u16::MAX,
        call_ensures(publish_port, (reply,), publish),
        call_ensures(ActorConfig::listen_port, (user,), listen),
    ensures
        config.operator.host matches Some(given) ==> host@ == given@,
        config.operator.host is None ==> host@ == "127.0.0.1"@,
        config.operator.port matches Some(given) ==> reply == given,
        config.operator.port is None ==> reply == 5555,
        publish == reply + 1,
        user.port matches Some(given) ==> listen == given,
        user.port is None ==> listen == 6000,
{
}

} // verus!
