use vstd::prelude::*;
use crate::text::{chars_of, chars_eq, chars_starts_with};

verus! {

/// Dependency of a plugin on another plugin.
#[derive(Debug, Clone)]
pub struct PluginDependency {
    pub name: String,
    pub version: String,
    pub required: bool,
}

/// A permission that a plugin asks for.
#[derive(Debug, Clone)]
pub enum PluginPermission {
    FileSystem { paths: Vec<String> },
    Network { hosts: Vec<String> },
    Process { commands: Vec<String> },
    Environment { variables: Vec<String> },
}

/// Description of a plugin, as read from its `plugin.toml`.
#[derive(Debug, Clone)]
pub struct PluginManifest {
    pub name: String,
    pub version: String,
    pub author: String,
    pub description: String,
    pub entry_point: String,
    pub component_types: Vec<String>,
    pub dependencies: Vec<PluginDependency>,
    pub permissions: Vec<PluginPermission>,
}

/// Errors of plugin loading and execution.
#[derive(Debug, Clone)]
pub enum PluginError {
    InitializationFailed(String),
    RenderFailed(String),
    PermissionDenied(String),
    InvalidConfiguration(String),
    RuntimeError(String),
}

pub open spec fn strings_view(v: Seq<String>) -> Seq<Seq<char>> {
    v.map_values(|s: String| s@)
}

pub open spec fn is_prefix(p: Seq<char>, s: Seq<char>) -> bool {
    p.len() <= s.len() && s.take(p.len() as int) == p
}

/// Index of the first entry of `items` that `ok` refuses, if any.
pub open spec fn first_refused(items: Seq<Seq<char>>, ok: spec_fn(Seq<char>) -> bool) -> Option<int> {
    if exists|k: int| 0 <= k < items.len() && !ok(items[k]) && forall|j: int| 0 <= j < k ==> ok(items[j]) {
        Some(choose|k: int| 0 <= k < items.len() && !ok(items[k]) && forall|j: int| 0 <= j < k ==> ok(items[j]))
    } else {
        None
    }
}

proof fn lemma_first_refused(items: Seq<Seq<char>>, ok: spec_fn(Seq<char>) -> bool, k: int)
    requires
        0 <= k < items.len(),
        !ok(items[k]),
        forall|j: int| 0 <= j < k ==> ok(items[j]),
    ensures
        first_refused(items, ok) == Some(k),
{
    let c = choose|c: int| 0 <= c < items.len() && !ok(items[c]) && forall|j: int| 0 <= j < c ==> ok(items[j]);
    assert(0 <= c < items.len() && !ok(items[c]) && forall|j: int| 0 <= j < c ==> ok(items[j]));
    if c < k {
        assert(ok(items[c]));
    }
    if k < c {
        assert(ok(items[k]));
    }
}

proof fn lemma_none_refused(items: Seq<Seq<char>>, ok: spec_fn(Seq<char>) -> bool)
    requires
        forall|j: int| 0 <= j < items.len() ==> ok(items[j]),
    ensures
        first_refused(items, ok) is None,
{
}

/// Text of a refusal: `prefix`, the item in quotes, and "not allowed".
pub open spec fn refusal_text(prefix: Seq<char>, item: Seq<char>) -> Seq<char> {
    prefix + item + "' not allowed"@
}

/// Security manager that holds the paths, hosts and commands plugins may use.
#[derive(Debug)]
pub struct PluginSecurityManager {
    allowed_paths: Vec<String>,
    allowed_hosts: Vec<String>,
    allowed_commands: Vec<String>,
    _sandbox_enabled: bool,
}

impl PluginSecurityManager {
    pub closed spec fn allowed_paths(&self) -> Seq<Seq<char>> {
        strings_view(self.allowed_paths@)
    }

    pub closed spec fn allowed_hosts(&self) -> Seq<Seq<char>> {
        strings_view(self.allowed_hosts@)
    }

    pub closed spec fn allowed_commands(&self) -> Seq<Seq<char>> {
        strings_view(self.allowed_commands@)
    }

    pub open spec fn path_ok(&self) -> spec_fn(Seq<char>) -> bool {
        |p: Seq<char>| exists|i: int| 0 <= i < self.allowed_paths().len() && is_prefix(self.allowed_paths()[i], p)
    }

    pub open spec fn host_ok(&self) -> spec_fn(Seq<char>) -> bool {
        |h: Seq<char>| self.allowed_hosts().contains(h)
    }

    pub open spec fn command_ok(&self) -> spec_fn(Seq<char>) -> bool {
        |c: Seq<char>| self.allowed_commands().contains(c)
    }

    /// The refusal text for a permission, if it asks for something not allowed:
    /// the first path, host or command that is refused is named.
    pub open spec fn denial(&self, p: PluginPermission) -> Option<Seq<char>> {
        match p {
            PluginPermission::FileSystem { paths } => match first_refused(strings_view(paths@), self.path_ok()) {
                Some(k) => Some(refusal_text("File system access to '"@, strings_view(paths@)[k])),
                None => None,
            },
            PluginPermission::Network { hosts } => match first_refused(strings_view(hosts@), self.host_ok()) {
                Some(k) => Some(refusal_text("Network access to '"@, strings_view(hosts@)[k])),
                None => None,
            },
            PluginPermission::Process { commands } => match first_refused(strings_view(commands@), self.command_ok()) {
                Some(k) => Some(refusal_text("Process execution of '"@, strings_view(commands@)[k])),
                None => None,
            },
            PluginPermission::Environment { variables } => None,
        }
    }

    /// Paths under `/tmp` and `/var/log`, the host `localhost`, and the
    /// commands `echo` and `date`.
    pub fn new() -> (m: Self)
        ensures
            m.allowed_paths() == seq!["/tmp"@, "/var/log"@],
            m.allowed_hosts() == seq!["localhost"@],
            m.allowed_commands() == seq!["echo"@, "date"@],
    {
        let mut allowed_paths: Vec<String> = Vec::new();
        allowed_paths.push(String::from_str("/tmp"));
        allowed_paths.push(String::from_str("/var/log"));
        let mut allowed_hosts: Vec<String> = Vec::new();
        allowed_hosts.push(String::from_str("localhost"));
        let mut allowed_commands: Vec<String> = Vec::new();
        allowed_commands.push(String::from_str("echo"));
        allowed_commands.push(String::from_str("date"));
        let m = PluginSecurityManager {
            allowed_paths,
            allowed_hosts,
            allowed_commands,
            _sandbox_enabled: true,
        };
        assert(m.allowed_paths() =~= seq!["/tmp"@, "/var/log"@]);
        assert(m.allowed_hosts() =~= seq!["localhost"@]);
        assert(m.allowed_commands() =~= seq!["echo"@, "date"@]);
        m
    }

    /// Whether the path starts with one of the allowed paths.
    pub fn is_path_allowed(&self, path: &str) -> (r: bool)
        ensures
            r == (self.path_ok())(path@),
    {
        let pv = chars_of(path);
        let mut i: usize = 0;
        while i < self.allowed_paths.len()
            invariant
                i <= self.allowed_paths@.len(),
                pv@ == path@,
                forall|j: int| 0 <= j < i ==> !is_prefix(self.allowed_paths()[j], path@),
            decreases self.allowed_paths@.len() - i,
        {
            let a = chars_of(self.allowed_paths[i].as_str());
            if chars_starts_with(&pv, &a) {
                assert(is_prefix(self.allowed_paths()[i as int], path@));
                return true;
            }
            i = i + 1;
        }
        false
    }

    fn list_contains(list: &Vec<String>, item: &str) -> (r: bool)
        ensures
            r == strings_view(list@).contains(item@),
    {
        let iv = chars_of(item);
        let mut i: usize = 0;
        while i < list.len()
            invariant
                i <= list@.len(),
                iv@ == item@,
                forall|j: int| 0 <= j < i ==> list@[j]@ != item@,
            decreases list@.len() - i,
        {
            let a = chars_of(list[i].as_str());
            if chars_eq(&a, &iv) {
                assert(strings_view(list@)[i as int] == item@);
                return true;
            }
            i = i + 1;
        }
        assert forall|j: int| 0 <= j < strings_view(list@).len() implies strings_view(list@)[j] != item@ by {
            assert(strings_view(list@)[j] == list@[j]@);
        }
        false
    }

    /// Whether the host is one of the allowed hosts.
    pub fn is_host_allowed(&self, host: &str) -> (r: bool)
        ensures
            r == (self.host_ok())(host@),
    {
        Self::list_contains(&self.allowed_hosts, host)
    }

    /// Whether the command is one of the allowed commands.
    pub fn is_command_allowed(&self, command: &str) -> (r: bool)
        ensures
            r == (self.command_ok())(command@),
    {
        Self::list_contains(&self.allowed_commands, command)
    }

    /// The index of the first item that `kind` refuses (0: path, 1: host,
    /// 2: command), if any.
    fn first_refused_item(&self, items: &Vec<String>, kind: u8) -> (r: Option<usize>)
        requires
            kind < 3,
        ensures
            ({
                let ok = if kind == 0 {
                    self.path_ok()
                } else if kind == 1 {
                    self.host_ok()
                } else {
                    self.command_ok()
                };
                r matches Some(k) ==> first_refused(strings_view(items@), ok) == Some(k as int)
                    && k < items@.len()
            }),
            ({
                let ok = if kind == 0 {
                    self.path_ok()
                } else if kind == 1 {
                    self.host_ok()
                } else {
                    self.command_ok()
                };
                r is None ==> first_refused(strings_view(items@), ok) is None
            }),
    {
        let ghost ok = if kind == 0 {
            self.path_ok()
        } else if kind == 1 {
            self.host_ok()
        } else {
            self.command_ok()
        };
        let ghost sv = strings_view(items@);
        let mut i: usize = 0;
        while i < items.len()
            invariant
                i <= items@.len(),
                sv == strings_view(items@),
                kind < 3,
                ok == (if kind == 0 {
                    self.path_ok()
                } else if kind == 1 {
                    self.host_ok()
                } else {
                    self.command_ok()
                }),
                forall|j: int| 0 <= j < i ==> ok(sv[j]),
            decreases items@.len() - i,
        {
            let item = items[i].as_str();
            let allowed = if kind == 0 {
                self.is_path_allowed(item)
            } else if kind == 1 {
                self.is_host_allowed(item)
            } else {
                self.is_command_allowed(item)
            };
            assert(sv[i as int] == items@[i as int]@);
            if !allowed {
                proof {
                    lemma_first_refused(sv, ok, i as int);
                }
                return Some(i);
            }
            i = i + 1;
        }
        proof {
            lemma_none_refused(sv, ok);
        }
        None
    }

    /// Checks every permission in order; the first path, host or command that
    /// is not allowed is refused with `PermissionDenied`. Environment access is
    /// always allowed.
    pub fn validate_permissions(&self, permissions: &[PluginPermission]) -> (r: Result<(), PluginError>)
        ensures
            r is Ok <==> forall|k: int| 0 <= k < permissions@.len() ==> self.denial(#[trigger] permissions@[k]) is None,
            r matches Err(e) ==> exists|k: int|
                0 <= k < permissions@.len() && (forall|j: int| 0 <= j < k ==> self.denial(permissions@[j]) is None)
                    && (e matches PluginError::PermissionDenied(msg) && self.denial(#[trigger] permissions@[k]) == Some(msg@)),
    {
        proof {
            reveal_strlit("' not allowed");
        }
        let mut i: usize = 0;
        while i < permissions.len()
            invariant
                i <= permissions@.len(),
                forall|j: int| 0 <= j < i ==> self.denial(#[trigger] permissions@[j]) is None,
            decreases permissions@.len() - i,
        {
            let denied: Option<String> = match &permissions[i] {
                PluginPermission::FileSystem { paths } => match self.first_refused_item(paths, 0) {
                    Some(k) => {
                        let mut msg = String::from_str("File system access to '");
                        msg.append(paths[k].as_str());
                        msg.append("' not allowed");
                        Some(msg)
                    },
                    None => None,
                },
                PluginPermission::Network { hosts } => match self.first_refused_item(hosts, 1) {
                    Some(k) => {
                        let mut msg = String::from_str("Network access to '");
                        msg.append(hosts[k].as_str());
                        msg.append("' not allowed");
                        Some(msg)
                    },
                    None => None,
                },
                PluginPermission::Process { commands } => match self.first_refused_item(commands, 2) {
                    Some(k) => {
                        let mut msg = String::from_str("Process execution of '");
                        msg.append(commands[k].as_str());
                        msg.append("' not allowed");
                        Some(msg)
                    },
                    None => None,
                },
                PluginPermission::Environment { variables: _ } => None,
            };
            match denied {
                Some(msg) => {
                    assert(self.denial(permissions@[i as int]) == Some(msg@));
                    return Err(PluginError::PermissionDenied(msg));
                },
                None => {},
            }
            i = i + 1;
        }
        Ok(())
    }
}

/// The manifest that stands in for a plugin whose manifest file does not
/// exist: a test plugin offering a `custom_chart` component, with no
/// dependencies and no permissions.
pub fn fallback_manifest() -> (m: PluginManifest)
    ensures
        m.name@ == "test_plugin"@,
        m.version@ == "1.0.0"@,
        m.author@ == "BoxMux Team"@,
        m.description@ == "Test plugin"@,
        m.entry_point@ == "lib.so"@,
        strings_view(m.component_types@) == seq!["custom_chart"@],
        m.dependencies@.len() == 0,
        m.permissions@.len() == 0,
{
    let mut component_types: Vec<String> = Vec::new();
    component_types.push(String::from_str("custom_chart"));
    let m = PluginManifest {
        name: String::from_str("test_plugin"),
        version: String::from_str("1.0.0"),
        author: String::from_str("BoxMux Team"),
        description: String::from_str("Test plugin"),
        entry_point: String::from_str("lib.so"),
        component_types,
        dependencies: Vec::new(),
        permissions: Vec::new(),
    };
    assert(strings_view(m.component_types@) =~= seq!["custom_chart"@]);
    m
}

} // verus!
