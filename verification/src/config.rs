//! The configuration of a node: defaults, the file, the environment, and what
//! it has to hold.

use vstd::prelude::*;
use vstd::string::*;

use crate::cdn::rules;
use crate::net;
use crate::net::Cidr;
use crate::paths;
use crate::text;
use crate::types::Platform;

verus! {

/// The configuration of a node.
#[derive(Debug, Clone)]
pub struct Config {
    /// Where the worker is, such as `https://quic-p2p.example.workers.dev`.
    pub worker_url: String,
    /// With what a token is asked for.
    pub auth_secret: String,
    /// The node's id; the worker assigns it.
    pub edge_id: String,
    /// The token of the tunnel.
    pub tunnel_token: String,
    /// The tunnel's program; searched for where there is none.
    pub cloudflared_path: Option<String>,
    pub stun_server: String,
    /// The CDN manifest.
    pub cdn_manifest: String,
    pub data_dir: String,
    /// The node's address in the virtual network, such as `10.0.0.1/24`.
    pub virtual_ip: String,
    pub group_name: String,
    /// At least eight bytes.
    pub group_password: String,
    /// The node's connection id; it is made when the node starts.
    pub quic_conn_id: String,
}

/// What a configuration file holds.
#[derive(Debug, Clone)]
pub struct ConfigFile {
    pub worker_url: Option<String>,
    pub auth_secret: Option<String>,
    pub tunnel_token: Option<String>,
    pub cloudflared_path: Option<String>,
    pub stun_server: Option<String>,
    pub cdn_manifest: Option<String>,
    pub data_dir: Option<String>,
    pub virtual_ip: Option<String>,
    pub group_name: Option<String>,
    pub group_password: Option<String>,
}

/// What the environment holds, each under the name of its variable.
#[derive(Debug, Clone)]
pub struct EnvOverrides {
    /// `EDGE_WORKER_URL`
    pub worker_url: Option<String>,
    /// `EDGE_AUTH_SECRET`
    pub auth_secret: Option<String>,
    /// `EDGE_EDGE_ID`
    pub edge_id: Option<String>,
    /// `EDGE_TUNNEL_TOKEN`
    pub tunnel_token: Option<String>,
    /// `EDGE_CLOUDFLARED_PATH`
    pub cloudflared_path: Option<String>,
    /// `EDGE_STUN_SERVER`
    pub stun_server: Option<String>,
    /// `EDGE_CDN_MANIFEST`
    pub cdn_manifest: Option<String>,
    /// `EDGE_AGENT_DATA_DIR`
    pub data_dir: Option<String>,
    /// `EDGE_VIRTUAL_IP`
    pub virtual_ip: Option<String>,
    /// `EDGE_GROUP_NAME`
    pub group_name: Option<String>,
    /// `EDGE_GROUP_PASSWORD`
    pub group_password: Option<String>,
}

/// What is wrong with a configuration.
#[derive(Debug, Clone)]
pub enum ConfigError {
    NoWorkerUrl,
    /// The worker's URL is none of HTTP.
    BadWorkerUrl,
    NoAuthSecret,
    NoTunnelToken,
    NoVirtualIp,
    /// The virtual address has no prefix length; it is this one.
    VirtualIpWithoutPrefix(String),
    BadVirtualIp,
    NoGroupName,
    ShortGroupPassword,
}

impl ConfigError {
    /// The message for a reader.
    pub open spec fn text(self) -> Seq<char> {
        match self {
            ConfigError::NoWorkerUrl =>
                "worker_url 未设置（环境变量 EDGE_WORKER_URL 或 config.toml 中配置）"@,
            ConfigError::BadWorkerUrl =>
                "worker_url 格式错误，必须以 http:// 或 https:// 开头"@,
            ConfigError::NoAuthSecret => "auth_secret 未设置"@,
            ConfigError::NoTunnelToken => "tunnel_token 未设置"@,
            ConfigError::NoVirtualIp => "virtual_ip 未设置（格式如 10.0.0.1/24）"@,
            ConfigError::VirtualIpWithoutPrefix(value) =>
                "virtual_ip 必须是 CIDR 格式（含掩码位），如 10.0.0.1/24，当前值: "@ + value@,
            ConfigError::BadVirtualIp =>
                "virtual_ip 格式无效，应为 CIDR 格式如 10.0.0.1/24"@,
            ConfigError::NoGroupName => "group_name 未设置"@,
            ConfigError::ShortGroupPassword => "group_password 长度至少 8 位"@,
        }
    }

    /// The message for a reader.
    pub fn message(&self) -> (r: String)
        ensures
            r@ == self.text(),
    {
        match self {
            ConfigError::NoWorkerUrl =>
                "worker_url 未设置（环境变量 EDGE_WORKER_URL 或 config.toml 中配置）".to_owned(),
            ConfigError::BadWorkerUrl =>
                "worker_url 格式错误，必须以 http:// 或 https:// 开头".to_owned(),
            ConfigError::NoAuthSecret => "auth_secret 未设置".to_owned(),
            ConfigError::NoTunnelToken => "tunnel_token 未设置".to_owned(),
            ConfigError::NoVirtualIp => "virtual_ip 未设置（格式如 10.0.0.1/24）".to_owned(),
            ConfigError::VirtualIpWithoutPrefix(value) => text::concat(
                "virtual_ip 必须是 CIDR 格式（含掩码位），如 10.0.0.1/24，当前值: ",
                value.as_str(),
            ),
            ConfigError::BadVirtualIp =>
                "virtual_ip 格式无效，应为 CIDR 格式如 10.0.0.1/24".to_owned(),
            ConfigError::NoGroupName => "group_name 未设置".to_owned(),
            ConfigError::ShortGroupPassword => "group_password 长度至少 8 位".to_owned(),
        }
    }
}

/// The data directory where nothing else is said.
pub open spec fn data_dir_of(
    env: Option<String>,
    platform: Platform,
    exe_dir: Option<String>,
) -> Seq<char> {
    match env {
        Some(dir) => dir@,
        None => if platform == Platform::Windows && exe_dir is Some {
            (exe_dir->0)@
        } else {
            "/etc/edge-agent"@
        },
    }
}

/// The data directory where the configuration names none: the one that the
/// environment names, else on Windows the program's own, else
/// `/etc/edge-agent`. On Android the environment has to name it.
pub fn default_data_dir(
    env: &Option<String>,
    platform: Platform,
    exe_dir: &Option<String>,
) -> (r: String)
    requires
        platform == Platform::Android ==> env is Some,
    ensures
        r@ == data_dir_of(*env, platform, *exe_dir),
{
    match env {
        Some(dir) => dir.clone(),
        None => {
            if platform == Platform::Windows {
                match exe_dir {
                    Some(dir) => {
                        return dir.clone();
                    },
                    None => {},
                }
            }
            "/etc/edge-agent".to_owned()
        },
    }
}

/// `value`, where it is there; else `fallback`.
pub open spec fn chosen(value: Option<String>, fallback: Seq<char>) -> Seq<char> {
    match value {
        Some(s) => s@,
        None => fallback,
    }
}

/// `value`, where it is there; else `fallback`.
fn pick(value: &Option<String>, fallback: &str) -> (r: String)
    ensures
        r@ == chosen(*value, fallback@),
{
    match value {
        Some(s) => s.clone(),
        None => fallback.to_owned(),
    }
}

/// `value`, where it is there and holds something; else what was there before.
pub open spec fn overridden(value: Option<String>, before: Seq<char>) -> Seq<char> {
    match value {
        Some(s) => if s@.len() == 0 {
            before
        } else {
            s@
        },
        None => before,
    }
}

/// Replaces a field by `value`, where that is there and holds something.
fn override_str(field: &mut String, value: &Option<String>)
    ensures
        final(field)@ == overridden(*value, old(field)@),
{
    match value {
        Some(s) => {
            if !s.as_str().is_empty() {
                *field = s.clone();
            }
        },
        None => {},
    }
}

/// Some configuration with nothing but defaults.
pub open spec fn is_default(c: Config, platform: Platform, data_dir: Seq<char>) -> bool {
    &&& c.worker_url@ == ""@
    &&& c.auth_secret@ == ""@
    &&& c.edge_id@ == ""@
    &&& c.tunnel_token@ == ""@
    &&& c.cloudflared_path is None
    &&& c.stun_server@ == "stun.cloudflare.com:3478"@
    &&& c.cdn_manifest@ == paths::joined(platform, data_dir, "cdn_list.toml"@)
    &&& c.data_dir@ == data_dir
    &&& c.virtual_ip@ == ""@
    &&& c.group_name@ == ""@
    &&& c.group_password@ == ""@
    &&& c.quic_conn_id@ == ""@
}

/// Some configuration with what a file holds, and defaults for the rest. The
/// manifest lies in the data directory, unless the file says otherwise.
pub open spec fn is_from_file(
    c: Config,
    file: ConfigFile,
    platform: Platform,
    data_dir: Seq<char>,
) -> bool {
    &&& c.worker_url@ == chosen(file.worker_url, ""@)
    &&& c.auth_secret@ == chosen(file.auth_secret, ""@)
    &&& c.edge_id@ == ""@
    &&& c.tunnel_token@ == chosen(file.tunnel_token, ""@)
    &&& c.cloudflared_path == file.cloudflared_path
    &&& c.stun_server@ == chosen(file.stun_server, "stun.cloudflare.com:3478"@)
    &&& c.data_dir@ == chosen(file.data_dir, data_dir)
    &&& c.cdn_manifest@ == chosen(
        file.cdn_manifest,
        paths::joined(platform, chosen(file.data_dir, data_dir), "cdn_list.toml"@),
    )
    &&& c.virtual_ip@ == chosen(file.virtual_ip, ""@)
    &&& c.group_name@ == chosen(file.group_name, ""@)
    &&& c.group_password@ == chosen(file.group_password, ""@)
    &&& c.quic_conn_id@ == ""@
}

/// The manifest that the environment names. Where it names a data directory
/// and says nothing of the manifest, the manifest lies in that directory.
pub open spec fn manifest_overridden(
    env: EnvOverrides,
    platform: Platform,
    before: Seq<char>,
) -> Seq<char> {
    if env.cdn_manifest is None && overridden(env.data_dir, ""@) != ""@ {
        paths::joined(platform, overridden(env.data_dir, ""@), "cdn_list.toml"@)
    } else {
        overridden(env.cdn_manifest, before)
    }
}

/// `c` is the configuration `before`, with what the environment says.
pub open spec fn is_overridden(
    c: Config,
    before: Config,
    env: EnvOverrides,
    platform: Platform,
) -> bool {
    &&& c.worker_url@ == overridden(env.worker_url, before.worker_url@)
    &&& c.auth_secret@ == overridden(env.auth_secret, before.auth_secret@)
    &&& c.edge_id@ == overridden(env.edge_id, before.edge_id@)
    &&& c.tunnel_token@ == overridden(env.tunnel_token, before.tunnel_token@)
    &&& c.cloudflared_path == match env.cloudflared_path {
        Some(s) => if s@.len() == 0 {
            before.cloudflared_path
        } else {
            Some(s)
        },
        None => before.cloudflared_path,
    }
    &&& c.stun_server@ == overridden(env.stun_server, before.stun_server@)
    &&& c.cdn_manifest@ == manifest_overridden(env, platform, before.cdn_manifest@)
    &&& c.data_dir@ == overridden(env.data_dir, before.data_dir@)
    &&& c.virtual_ip@ == overridden(env.virtual_ip, before.virtual_ip@)
    &&& c.group_name@ == overridden(env.group_name, before.group_name@)
    &&& c.group_password@ == overridden(env.group_password, before.group_password@)
    &&& c.quic_conn_id == before.quic_conn_id
}

/// Lets the environment override a configuration.
pub fn apply_env_override(config: &mut Config, env: &EnvOverrides, platform: Platform)
    ensures
        is_overridden(*final(config), *old(config), *env, platform),
{
    override_str(&mut config.worker_url, &env.worker_url);
    override_str(&mut config.auth_secret, &env.auth_secret);
    override_str(&mut config.edge_id, &env.edge_id);
    override_str(&mut config.tunnel_token, &env.tunnel_token);
    override_str(&mut config.stun_server, &env.stun_server);
    override_str(&mut config.virtual_ip, &env.virtual_ip);
    override_str(&mut config.group_name, &env.group_name);
    override_str(&mut config.group_password, &env.group_password);
    match &env.cloudflared_path {
        Some(s) => {
            if !s.as_str().is_empty() {
                config.cloudflared_path = Some(s.clone());
            }
        },
        None => {},
    }
    override_str(&mut config.cdn_manifest, &env.cdn_manifest);
    proof {
        reveal_strlit("");
        assert(""@ =~= Seq::<char>::empty());
    }
    match &env.data_dir {
        Some(dir) => {
            if !dir.as_str().is_empty() {
                config.data_dir = dir.clone();
                if env.cdn_manifest.is_none() {
                    config.cdn_manifest = paths::join_path(platform, dir.as_str(), "cdn_list.toml");
                }
            }
        },
        None => {},
    }
}

/// What is wrong with a configuration, if anything: the first thing that is.
/// `cidr` is the network that its virtual address spells.
pub open spec fn error_with(c: Config, cidr: Option<Cidr>) -> Option<ConfigError> {
    if c.worker_url@.len() == 0 {
        Some(ConfigError::NoWorkerUrl)
    } else if !text::begins_with(c.worker_url@, "http://"@) && !text::begins_with(
        c.worker_url@,
        "https://"@,
    ) {
        Some(ConfigError::BadWorkerUrl)
    } else if c.auth_secret@.len() == 0 {
        Some(ConfigError::NoAuthSecret)
    } else if c.tunnel_token@.len() == 0 {
        Some(ConfigError::NoTunnelToken)
    } else if c.virtual_ip@.len() == 0 {
        Some(ConfigError::NoVirtualIp)
    } else if !text::has_text(c.virtual_ip@, "/"@) {
        Some(ConfigError::VirtualIpWithoutPrefix(c.virtual_ip))
    } else if cidr is None {
        Some(ConfigError::BadVirtualIp)
    } else if c.group_name@.len() == 0 {
        Some(ConfigError::NoGroupName)
    } else if vstd::utf8::encode_utf8(c.group_password@).len() < 8 {
        Some(ConfigError::ShortGroupPassword)
    } else {
        None
    }
}

/// What is wrong with a configuration, if anything.
pub open spec fn config_error(c: Config) -> Option<ConfigError> {
    error_with(c, net::cidr_of_text(c.virtual_ip@))
}

/// `c` is what the file or the defaults say, overridden by the environment.
pub open spec fn is_loaded(
    c: Config,
    file: Option<ConfigFile>,
    env: EnvOverrides,
    platform: Platform,
    exe_dir: Option<String>,
) -> bool {
    exists|before: Config| #[trigger]
        is_overridden(c, before, env, platform) && match file {
            Some(f) => is_from_file(
                before,
                f,
                platform,
                data_dir_of(env.data_dir, platform, exe_dir),
            ),
            None => is_default(before, platform, data_dir_of(env.data_dir, platform, exe_dir)),
        }
}

impl Config {
    /// Nothing but defaults. `env_dir` is the data directory that the
    /// environment names, `exe_dir` the program's own.
    pub fn default(
        env_dir: &Option<String>,
        platform: Platform,
        exe_dir: &Option<String>,
    ) -> (r: Config)
        requires
            platform == Platform::Android ==> env_dir is Some,
        ensures
            is_default(r, platform, data_dir_of(*env_dir, platform, *exe_dir)),
    {
        Config::with_data_dir(platform, default_data_dir(env_dir, platform, exe_dir).as_str())
    }

    /// Nothing but defaults, with a data directory.
    pub fn with_data_dir(platform: Platform, data_dir: &str) -> (r: Config)
        ensures
            is_default(r, platform, data_dir@),
    {
        Config {
            worker_url: "".to_owned(),
            auth_secret: "".to_owned(),
            edge_id: "".to_owned(),
            tunnel_token: "".to_owned(),
            cloudflared_path: None,
            stun_server: "stun.cloudflare.com:3478".to_owned(),
            cdn_manifest: paths::join_path(platform, data_dir, "cdn_list.toml"),
            data_dir: data_dir.to_owned(),
            virtual_ip: "".to_owned(),
            group_name: "".to_owned(),
            group_password: "".to_owned(),
            quic_conn_id: "".to_owned(),
        }
    }

    /// What a file holds, and defaults for the rest.
    pub fn from_file(file: &ConfigFile, platform: Platform, data_dir: &str) -> (r: Config)
        ensures
            is_from_file(r, *file, platform, data_dir@),
    {
        let dir = pick(&file.data_dir, data_dir);
        let manifest = paths::join_path(platform, dir.as_str(), "cdn_list.toml");
        Config {
            worker_url: pick(&file.worker_url, ""),
            auth_secret: pick(&file.auth_secret, ""),
            edge_id: "".to_owned(),
            tunnel_token: pick(&file.tunnel_token, ""),
            cloudflared_path: match &file.cloudflared_path {
                Some(s) => Some(s.clone()),
                None => None,
            },
            stun_server: pick(&file.stun_server, "stun.cloudflare.com:3478"),
            cdn_manifest: pick(&file.cdn_manifest, manifest.as_str()),
            data_dir: dir,
            virtual_ip: pick(&file.virtual_ip, ""),
            group_name: pick(&file.group_name, ""),
            group_password: pick(&file.group_password, ""),
            quic_conn_id: "".to_owned(),
        }
    }

    /// The configuration of a node: what the file holds, if there is one, with
    /// the environment over it, once it has been checked. `exe_dir` is the
    /// program's own directory.
    pub fn load(
        file: &Option<ConfigFile>,
        env: &EnvOverrides,
        platform: Platform,
        exe_dir: &Option<String>,
    ) -> (r: Result<Config, ConfigError>)
        requires
            platform == Platform::Android ==> env.data_dir is Some,
        ensures
            match r {
                Ok(c) => is_loaded(c, *file, *env, platform, *exe_dir) && config_error(c) is None,
                Err(e) => exists|c: Config|
                    is_loaded(c, *file, *env, platform, *exe_dir) && #[trigger] config_error(c)
                        == Some(e),
            },
    {
        let data_dir = default_data_dir(&env.data_dir, platform, exe_dir);
        let mut config = match file {
            Some(f) => Config::from_file(f, platform, data_dir.as_str()),
            None => Config::default(&env.data_dir, platform, exe_dir),
        };
        let ghost before = config;
        apply_env_override(&mut config, env, platform);
        assert(is_overridden(config, before, *env, platform));
        match config.validate() {
            Ok(()) => Ok(config),
            Err(e) => {
                assert(config_error(config) == Some(e));
                Err(e)
            },
        }
    }

    /// Checks a configuration once it is known which network its virtual
    /// address spells.
    pub fn validate_with(&self, cidr: Option<Cidr>) -> (r: Result<(), ConfigError>)
        ensures
            match error_with(*self, cidr) {
                Some(e) => r == Err::<(), ConfigError>(e),
                None => r is Ok,
            },
    {
        if self.worker_url.as_str().is_empty() {
            return Err(ConfigError::NoWorkerUrl);
        }
        if !text::starts_with(self.worker_url.as_str(), "http://") && !text::starts_with(
            self.worker_url.as_str(),
            "https://",
        ) {
            return Err(ConfigError::BadWorkerUrl);
        }
        if self.auth_secret.as_str().is_empty() {
            return Err(ConfigError::NoAuthSecret);
        }
        if self.tunnel_token.as_str().is_empty() {
            return Err(ConfigError::NoTunnelToken);
        }
        if self.virtual_ip.as_str().is_empty() {
            return Err(ConfigError::NoVirtualIp);
        }
        if !text::contains_text(self.virtual_ip.as_str(), "/") {
            return Err(ConfigError::VirtualIpWithoutPrefix(self.virtual_ip.clone()));
        }
        if cidr.is_none() {
            return Err(ConfigError::BadVirtualIp);
        }
        if self.group_name.as_str().is_empty() {
            return Err(ConfigError::NoGroupName);
        }
        if text::byte_length(self.group_password.as_str()) < 8 {
            return Err(ConfigError::ShortGroupPassword);
        }
        Ok(())
    }

    /// Checks that a configuration holds what a node needs.
    pub fn validate(&self) -> (r: Result<(), ConfigError>)
        ensures
            match config_error(*self) {
                Some(e) => r == Err::<(), ConfigError>(e),
                None => r is Ok,
            },
    {
        self.validate_with(self.virtual_cidr())
    }

    /// The network that the virtual address spells.
    pub fn virtual_cidr(&self) -> (r: Option<Cidr>)
        ensures
            r == net::cidr_of_text(self.virtual_ip@),
            r matches Some(cidr) ==> cidr.valid(),
    {
        net::parse_cidr(self.virtual_ip.as_str())
    }
}

/// Where a configuration file may lie, in the order of preference.
pub open spec fn config_places(env_dir: Option<String>, platform: Platform) -> Seq<Seq<char>> {
    match env_dir {
        Some(dir) => seq![
            "./config.toml"@,
            paths::joined(platform, dir@, "config.toml"@),
            "/etc/edge-agent/config.toml"@,
        ],
        None => seq!["./config.toml"@, "/etc/edge-agent/config.toml"@],
    }
}

/// Where a configuration file may lie, in the order of preference. `env_dir`
/// is the data directory that the environment names.
pub fn config_candidates(env_dir: &Option<String>, platform: Platform) -> (r: Vec<String>)
    ensures
        r@.map_values(|s: String| s@) == config_places(*env_dir, platform),
{
    let mut r: Vec<String> = Vec::new();
    r.push("./config.toml".to_owned());
    match env_dir {
        Some(dir) => {
            r.push(paths::join_path(platform, dir.as_str(), "config.toml"));
        },
        None => {},
    }
    r.push("/etc/edge-agent/config.toml".to_owned());
    proof {
        assert(r@.map_values(|s: String| s@) =~= config_places(*env_dir, platform));
    }
    r
}

/// The first of the places from `from` on where a file lies; where there is
/// none, the place beside the program's working directory.
pub open spec fn first_existing(places: Seq<Seq<char>>, exists: Seq<bool>, from: int) -> Seq<char>
    decreases places.len() - from,
{
    if from >= places.len() {
        "./config.toml"@
    } else if exists[from] {
        places[from]
    } else {
        first_existing(places, exists, from + 1)
    }
}

/// Picks the configuration file. `exists` tells for each candidate whether a
/// file lies there.
pub fn find_config(candidates: &Vec<String>, exists: &Vec<bool>) -> (r: String)
    requires
        candidates@.len() == exists@.len(),
    ensures
        r@ == first_existing(candidates@.map_values(|s: String| s@), exists@, 0),
{
    let ghost places = candidates@.map_values(|s: String| s@);
    let mut i: usize = 0;
    while i < candidates.len()
        invariant
            i <= candidates.len(),
            candidates@.len() == exists@.len(),
            places == candidates@.map_values(|s: String| s@),
            first_existing(places, exists@, 0) == first_existing(places, exists@, i as int),
        decreases candidates.len() - i,
    {
        if exists[i] {
            return candidates[i].clone();
        }
        i = i + 1;
    }
    "./config.toml".to_owned()
}

/// Where the node's id is kept.
pub open spec fn edge_id_place(platform: Platform, data_dir: Seq<char>) -> Seq<char> {
    paths::joined(platform, data_dir, "edge_id"@)
}

/// Where the node's id is kept.
pub fn edge_id_path(platform: Platform, data_dir: &str) -> (r: String)
    ensures
        r@ == edge_id_place(platform, data_dir@),
{
    paths::join_path(platform, data_dir, "edge_id")
}

/// The node's id in what its file holds.
pub open spec fn id_in(content: Seq<char>) -> Seq<char> {
    text::trimmed(content)
}

/// The node's id, from what its file holds; `None` where that cannot be read.
pub fn load_edge_id(content: &Option<String>) -> (r: Option<String>)
    ensures
        match *content {
            Some(s) => r matches Some(id) && id@ == id_in(s@),
            None => r is None,
        },
{
    match content {
        Some(s) => Some(text::trim(s.as_str()).to_owned()),
        None => None,
    }
}

/// Takes over the node's id from its file, if it could be read.
pub fn adopt_edge_id(config: &mut Config, content: &Option<String>)
    ensures
        final(config).edge_id@ == match *content {
            Some(s) => id_in(s@),
            None => old(config).edge_id@,
        },
        *final(config) == (Config { edge_id: final(config).edge_id, ..*old(config) }),
{
    match load_edge_id(content) {
        Some(id) => {
            config.edge_id = id;
        },
        None => {},
    }
}

/// The worker assigned another id.
pub open spec fn is_new_id(current: Seq<char>, assigned: Option<Seq<char>>) -> bool {
    match assigned {
        Some(id) => id != current,
        None => false,
    }
}

/// Whether the id that the worker assigned has to be kept: it is another one.
pub fn must_save_edge_id(current: &str, assigned: &Option<String>) -> (r: bool)
    ensures
        r == match *assigned {
            Some(id) => is_new_id(current@, Some(id@)),
            None => is_new_id(current@, None),
        },
{
    match assigned {
        Some(id) => !text::same_text(id.as_str(), current),
        None => false,
    }
}

/// The shape of a connection id: a random UUID, 32 hexadecimal digits in five
/// groups, with its version as the thirteenth digit.
pub open spec fn is_conn_id(id: Seq<char>) -> bool {
    id.len() == 36 && id[14] == '4' && forall|i: int|
        0 <= i < 36 ==> if i == 8 || i == 13 || i == 18 || i == 23 {
            #[trigger] id[i] == '-'
        } else {
            rules::is_hex(id[i])
        }
}

/// A fresh connection id.
///
/// Calls `uuid::Uuid::new_v4` and the UUID's `Display`. Trusted: the text is a
/// UUID of version 4, in groups, with small letters; which one it is, is left
/// to chance.
#[verifier::external_body]
fn fresh_conn_id() -> (r: String)
    ensures
        is_conn_id(r@),
{
    uuid::Uuid::new_v4().to_string()
}

/// Sets the node's connection id.
pub fn set_conn_id(config: &mut Config, id: String)
    ensures
        *final(config) == (Config { quic_conn_id: id, ..*old(config) }),
{
    config.quic_conn_id = id;
}

/// Gives the node a fresh connection id, which it keeps while it runs.
pub fn assign_conn_id(config: &mut Config)
    ensures
        is_conn_id(final(config).quic_conn_id@),
        *final(config) == (Config { quic_conn_id: final(config).quic_conn_id, ..*old(config) }),
{
    set_conn_id(config, fresh_conn_id());
}

/// Defaults alone are no configuration: the worker's URL is the first thing
/// that is missing.
pub proof fn defaults_are_refused(c: Config, platform: Platform, data_dir: Seq<char>)
    requires
        is_default(c, platform, data_dir),
    ensures
        config_error(c) == Some(ConfigError::NoWorkerUrl),
{
    reveal_strlit("");
}

/// The environment overrides what a file says; a variable that holds nothing
/// changes nothing.
pub proof fn environment_wins(value: String, before: Seq<char>)
    ensures
        value@.len() > 0 ==> overridden(Some(value), before) == value@,
        value@.len() == 0 ==> overridden(Some(value), before) == before,
        overridden(None, before) == before,
{
}

/// Overriding twice is overriding once.
pub proof fn overriding_is_idempotent(
    a: Config,
    b: Config,
    c: Config,
    env: EnvOverrides,
    platform: Platform,
)
    requires
        is_overridden(b, a, env, platform),
        is_overridden(c, b, env, platform),
    ensures
        c.worker_url@ == b.worker_url@,
        c.auth_secret@ == b.auth_secret@,
        c.edge_id@ == b.edge_id@,
        c.tunnel_token@ == b.tunnel_token@,
        c.cloudflared_path == b.cloudflared_path,
        c.stun_server@ == b.stun_server@,
        c.cdn_manifest@ == b.cdn_manifest@,
        c.data_dir@ == b.data_dir@,
        c.virtual_ip@ == b.virtual_ip@,
        c.group_name@ == b.group_name@,
        c.group_password@ == b.group_password@,
        c.quic_conn_id == b.quic_conn_id,
{
}

/// What has been loaded can be used: every field that a node needs is there.
pub proof fn checked_configurations_are_complete(c: Config)
    requires
        config_error(c) is None,
    ensures
        c.worker_url@.len() > 0,
        c.auth_secret@.len() > 0,
        c.tunnel_token@.len() > 0,
        c.group_name@.len() > 0,
        net::cidr_of_text(c.virtual_ip@) is Some,
{
}

/// The environment decides: where a variable holds a text that is not empty,
/// the overridden configuration has that text in the variable's field,
/// whatever stood there; where a variable is missing or empty, its field stays
/// as it was. The connection id has no variable.
pub proof fn variables_replace_fields(
    c: Config,
    before: Config,
    env: EnvOverrides,
    platform: Platform,
    s: String,
)
    requires
        is_overridden(c, before, env, platform),
    ensures
        s@.len() > 0 ==> {
            &&& env.worker_url == Some(s) ==> c.worker_url@ == s@
            &&& env.auth_secret == Some(s) ==> c.auth_secret@ == s@
            &&& env.edge_id == Some(s) ==> c.edge_id@ == s@
            &&& env.tunnel_token == Some(s) ==> c.tunnel_token@ == s@
            &&& env.cloudflared_path == Some(s) ==> c.cloudflared_path == Some(s)
            &&& env.stun_server == Some(s) ==> c.stun_server@ == s@
            &&& env.cdn_manifest == Some(s) ==> c.cdn_manifest@ == s@
            &&& env.data_dir == Some(s) ==> c.data_dir@ == s@
            &&& env.virtual_ip == Some(s) ==> c.virtual_ip@ == s@
            &&& env.group_name == Some(s) ==> c.group_name@ == s@
            &&& env.group_password == Some(s) ==> c.group_password@ == s@
        },
        env.worker_url is None || (env.worker_url->0)@.len() == 0 ==> c.worker_url@
            == before.worker_url@,
        env.auth_secret is None || (env.auth_secret->0)@.len() == 0 ==> c.auth_secret@
            == before.auth_secret@,
        env.edge_id is None || (env.edge_id->0)@.len() == 0 ==> c.edge_id@ == before.edge_id@,
        env.tunnel_token is None || (env.tunnel_token->0)@.len() == 0 ==> c.tunnel_token@
            == before.tunnel_token@,
        env.cloudflared_path is None || (env.cloudflared_path->0)@.len() == 0
            ==> c.cloudflared_path == before.cloudflared_path,
        env.stun_server is None || (env.stun_server->0)@.len() == 0 ==> c.stun_server@
            == before.stun_server@,
        env.data_dir is None || (env.data_dir->0)@.len() == 0 ==> c.data_dir@ == before.data_dir@,
        env.virtual_ip is None || (env.virtual_ip->0)@.len() == 0 ==> c.virtual_ip@
            == before.virtual_ip@,
        env.group_name is None || (env.group_name->0)@.len() == 0 ==> c.group_name@
            == before.group_name@,
        env.group_password is None || (env.group_password->0)@.len() == 0 ==> c.group_password@
            == before.group_password@,
        c.quic_conn_id == before.quic_conn_id,
{
}

/// A data directory that the environment names takes the manifest with it,
/// unless the environment names the manifest; without either the manifest
/// stays where it was.
pub proof fn manifest_follows_the_data_directory(
    c: Config,
    before: Config,
    env: EnvOverrides,
    platform: Platform,
    dir: String,
)
    requires
        is_overridden(c, before, env, platform),
    ensures
        env.cdn_manifest is None && env.data_dir == Some(dir) && dir@.len() > 0 ==> c.cdn_manifest@
            == paths::joined(platform, dir@, "cdn_list.toml"@),
        env.cdn_manifest is None && (env.data_dir is None || (env.data_dir->0)@.len() == 0)
            ==> c.cdn_manifest@ == before.cdn_manifest@,
        env.cdn_manifest is Some && (env.cdn_manifest->0)@.len() == 0 ==> c.cdn_manifest@
            == before.cdn_manifest@,
{
    reveal_strlit("");
    assert(forall|s: Seq<char>| s.len() == 0 ==> s =~= ""@);
}

/// A loaded configuration has in each field what its variable holds, whatever
/// the file says.
pub proof fn loading_prefers_the_environment(
    c: Config,
    file: Option<ConfigFile>,
    env: EnvOverrides,
    platform: Platform,
    exe_dir: Option<String>,
    s: String,
)
    requires
        is_loaded(c, file, env, platform, exe_dir),
        s@.len() > 0,
    ensures
        env.worker_url == Some(s) ==> c.worker_url@ == s@,
        env.auth_secret == Some(s) ==> c.auth_secret@ == s@,
        env.edge_id == Some(s) ==> c.edge_id@ == s@,
        env.tunnel_token == Some(s) ==> c.tunnel_token@ == s@,
        env.cloudflared_path == Some(s) ==> c.cloudflared_path == Some(s),
        env.stun_server == Some(s) ==> c.stun_server@ == s@,
        env.cdn_manifest == Some(s) ==> c.cdn_manifest@ == s@,
        env.data_dir == Some(s) ==> c.data_dir@ == s@,
        env.virtual_ip == Some(s) ==> c.virtual_ip@ == s@,
        env.group_name == Some(s) ==> c.group_name@ == s@,
        env.group_password == Some(s) ==> c.group_password@ == s@,
{
}

/// A variable is missing, or holds nothing.
pub open spec fn says_nothing(value: Option<String>) -> bool {
    value is None || (value->0)@.len() == 0
}

/// Where the environment says nothing, a loaded configuration has in each
/// field what the file says.
pub proof fn loading_takes_the_file(
    c: Config,
    file: ConfigFile,
    env: EnvOverrides,
    platform: Platform,
    exe_dir: Option<String>,
    s: String,
)
    requires
        is_loaded(c, Some(file), env, platform, exe_dir),
    ensures
        says_nothing(env.worker_url) && file.worker_url == Some(s) ==> c.worker_url@ == s@,
        says_nothing(env.auth_secret) && file.auth_secret == Some(s) ==> c.auth_secret@ == s@,
        says_nothing(env.tunnel_token) && file.tunnel_token == Some(s) ==> c.tunnel_token@ == s@,
        says_nothing(env.cloudflared_path) && file.cloudflared_path == Some(s) ==> c.cloudflared_path
            == Some(s),
        says_nothing(env.stun_server) && file.stun_server == Some(s) ==> c.stun_server@ == s@,
        says_nothing(env.cdn_manifest) && says_nothing(env.data_dir) && file.cdn_manifest == Some(s)
            ==> c.cdn_manifest@ == s@,
        says_nothing(env.data_dir) && file.data_dir == Some(s) ==> c.data_dir@ == s@,
        says_nothing(env.virtual_ip) && file.virtual_ip == Some(s) ==> c.virtual_ip@ == s@,
        says_nothing(env.group_name) && file.group_name == Some(s) ==> c.group_name@ == s@,
        says_nothing(env.group_password) && file.group_password == Some(s) ==> c.group_password@ == s@,
        says_nothing(env.edge_id) ==> c.edge_id@.len() == 0,
        c.quic_conn_id@.len() == 0,
{
    reveal_strlit("");
    assert(forall|s: Seq<char>| s.len() == 0 ==> s =~= ""@);
}

/// Where neither the environment nor the file says anything, a loaded
/// configuration has the defaults: Cloudflare's STUN server, a data directory
/// below `/etc` or beside the program, the manifest in it, and nothing in the
/// fields that a node has to be given.
pub proof fn loading_falls_back_to_defaults(
    c: Config,
    file: Option<ConfigFile>,
    env: EnvOverrides,
    platform: Platform,
    exe_dir: Option<String>,
    dir: String,
)
    requires
        is_loaded(c, file, env, platform, exe_dir),
    ensures
        says_nothing(env.worker_url) && (file is None || (file->0).worker_url is None)
            ==> c.worker_url@.len() == 0,
        says_nothing(env.auth_secret) && (file is None || (file->0).auth_secret is None)
            ==> c.auth_secret@.len() == 0,
        says_nothing(env.tunnel_token) && (file is None || (file->0).tunnel_token is None)
            ==> c.tunnel_token@.len() == 0,
        says_nothing(env.cloudflared_path) && (file is None || (file->0).cloudflared_path is None)
            ==> c.cloudflared_path is None,
        says_nothing(env.stun_server) && (file is None || (file->0).stun_server is None)
            ==> c.stun_server@ == "stun.cloudflare.com:3478"@,
        says_nothing(env.virtual_ip) && (file is None || (file->0).virtual_ip is None)
            ==> c.virtual_ip@.len() == 0,
        says_nothing(env.group_name) && (file is None || (file->0).group_name is None)
            ==> c.group_name@.len() == 0,
        says_nothing(env.group_password) && (file is None || (file->0).group_password is None)
            ==> c.group_password@.len() == 0,
        env.data_dir is None && (file is None || (file->0).data_dir is None) ==> {
            &&& platform != Platform::Windows || exe_dir is None ==> c.data_dir@
                == "/etc/edge-agent"@
            &&& platform == Platform::Windows && exe_dir == Some(dir) ==> c.data_dir@ == dir@
        },
        env.data_dir is None && says_nothing(env.cdn_manifest) && (file is None || (
        file->0).cdn_manifest is None) ==> c.cdn_manifest@ == paths::joined(
            platform,
            c.data_dir@,
            "cdn_list.toml"@,
        ),
{
    reveal_strlit("");
    assert(forall|s: Seq<char>| s.len() == 0 ==> s =~= ""@);
}

/// A configuration is accepted exactly where the worker's URL is one of HTTP,
/// the secret, the token and the group's name are there, the virtual address
/// spells a network with its prefix length, and the group's password has at
/// least eight bytes.
pub proof fn complete_configurations_are_accepted(c: Config)
    ensures
        config_error(c) is None <==> {
            &&& exists|rest: Seq<char>|
                c.worker_url@ == #[trigger] ("http://"@ + rest) || c.worker_url@ == "https://"@
                    + rest
            &&& c.auth_secret@.len() > 0
            &&& c.tunnel_token@.len() > 0
            &&& c.virtual_ip@.contains('/')
            &&& net::cidr_of_text(c.virtual_ip@) is Some
            &&& c.group_name@.len() > 0
            &&& vstd::utf8::encode_utf8(c.group_password@).len() >= 8
        },
{
    reveal_strlit("http://");
    reveal_strlit("https://");
    reveal_strlit("/");
    let url = c.worker_url@;
    text::occurring_texts_were_placed(url, "http://"@, 0);
    text::occurring_texts_were_placed(url, "https://"@, 0);
    if text::begins_with(url, "http://"@) {
        assert(url == "http://"@ + url.skip(7));
    }
    if text::begins_with(url, "https://"@) {
        let rest = url.skip(8);
        assert(url == "https://"@ + rest);
        assert(("http://"@ + rest).len() == 7 + rest.len());
    }
    assert forall|rest: Seq<char>|
        url == #[trigger] ("http://"@ + rest) || url == "https://"@ + rest implies url.len() > 0 && (
    text::begins_with(url, "http://"@) || text::begins_with(url, "https://"@)) by {
        text::placed_texts_occur(""@, "http://"@, rest);
        text::placed_texts_occur(""@, "https://"@, rest);
    }
    slashes_are_found(c.virtual_ip@);
}

/// A text with a slash holds one as a part, and the other way round.
proof fn slashes_are_found(s: Seq<char>)
    ensures
        text::has_text(s, "/"@) <==> s.contains('/'),
{
    reveal_strlit("/");
    if s.contains('/') {
        let i = choose|i: int| 0 <= i < s.len() && s[i] == '/';
        assert(s.subrange(i, i + 1) =~= "/"@);
        assert(text::occurs_at(s, "/"@, i));
    }
    if text::has_text(s, "/"@) {
        let i = choose|i: int| text::occurs_at(s, "/"@, i);
        assert(s.subrange(i, i + 1)[0] == '/');
        assert(s[i] == '/');
    }
}

/// The first thing that is missing is the one that is told: each error means
/// that everything before it is there.
pub proof fn the_first_fault_is_told(c: Config)
    ensures
        config_error(c) == Some(ConfigError::NoWorkerUrl) <==> c.worker_url@.len() == 0,
        config_error(c) == Some(ConfigError::BadWorkerUrl) ==> c.worker_url@.len() > 0,
        config_error(c) == Some(ConfigError::NoAuthSecret) ==> c.auth_secret@.len() == 0
            && c.worker_url@.len() > 0,
        config_error(c) == Some(ConfigError::NoTunnelToken) ==> c.tunnel_token@.len() == 0
            && c.auth_secret@.len() > 0,
        config_error(c) == Some(ConfigError::NoVirtualIp) ==> c.virtual_ip@.len() == 0
            && c.tunnel_token@.len() > 0,
        config_error(c) matches Some(ConfigError::VirtualIpWithoutPrefix(value)) ==> value
            == c.virtual_ip && c.virtual_ip@.len() > 0 && !c.virtual_ip@.contains('/'),
        config_error(c) == Some(ConfigError::BadVirtualIp) ==> net::cidr_of_text(
            c.virtual_ip@,
        ) is None && c.virtual_ip@.contains('/'),
        config_error(c) == Some(ConfigError::NoGroupName) ==> c.group_name@.len() == 0
            && net::cidr_of_text(c.virtual_ip@) is Some,
        config_error(c) == Some(ConfigError::ShortGroupPassword) ==> c.group_name@.len() > 0
            && vstd::utf8::encode_utf8(c.group_password@).len() < 8,
{
    slashes_are_found(c.virtual_ip@);
}

/// The configuration file is looked for in the working directory, then in the
/// data directory that the environment names, then below `/etc`.
pub proof fn config_files_are_searched_in_order(dir: String, platform: Platform)
    ensures
        config_places(None, platform).len() == 2,
        config_places(None, platform)[0] == "./config.toml"@,
        config_places(None, platform)[1] == "/etc/edge-agent/config.toml"@,
        config_places(Some(dir), platform).len() == 3,
        config_places(Some(dir), platform)[0] == "./config.toml"@,
        config_places(Some(dir), platform)[1] == paths::joined(platform, dir@, "config.toml"@),
        config_places(Some(dir), platform)[2] == "/etc/edge-agent/config.toml"@,
{
}

/// The file that is taken is the first one that is there.
pub proof fn first_existing_file_is_taken(places: Seq<Seq<char>>, there: Seq<bool>, i: int)
    requires
        places.len() == there.len(),
    ensures
        0 <= i < places.len() && there[i] && (forall|j: int| 0 <= j < i ==> !there[j])
            ==> first_existing(places, there, 0) == places[i],
        (forall|j: int| 0 <= j < places.len() ==> !there[j]) ==> first_existing(places, there, 0)
            == "./config.toml"@,
{
    if 0 <= i < places.len() && there[i] && (forall|j: int| 0 <= j < i ==> !there[j]) {
        missing_files_are_passed(places, there, 0, i);
    }
    if forall|j: int| 0 <= j < places.len() ==> !there[j] {
        missing_files_are_passed(places, there, 0, places.len() as int);
    }
}

/// Places without a file are passed over.
proof fn missing_files_are_passed(places: Seq<Seq<char>>, there: Seq<bool>, from: int, to: int)
    requires
        0 <= from <= to <= places.len(),
        places.len() == there.len(),
        forall|j: int| from <= j < to ==> !there[j],
    ensures
        first_existing(places, there, from) == first_existing(places, there, to),
    decreases to - from,
{
    if from < to {
        assert(!there[from]);
        missing_files_are_passed(places, there, from + 1, to);
    }
}

/// The node's id is kept in a file of the data directory, and read from it
/// without the white space around it.
pub proof fn ids_are_read_from_their_file(
    data_dir: Seq<char>,
    lead: Seq<char>,
    id: Seq<char>,
    tail: Seq<char>,
)
    requires
        data_dir.len() > 0,
        data_dir.last() != '/',
        forall|i: int| 0 <= i < id.len() ==> 0x20 < (#[trigger] id[i]) as int && (id[i] as int)
            < 0x7f,
        forall|i: int| 0 <= i < lead.len() ==> lead[i] == ' ' || lead[i] == '\n',
        forall|i: int| 0 <= i < tail.len() ==> tail[i] == ' ' || tail[i] == '\n' || tail[i] == '\r',
    ensures
        edge_id_place(Platform::Other, data_dir) == data_dir + "/edge_id"@,
        edge_id_place(Platform::Android, data_dir) == data_dir + "/edge_id"@,
        id_in(lead + id + tail) == id,
{
    reveal_strlit("edge_id");
    reveal_strlit("/edge_id");
    paths::relative_names_are_appended(Platform::Other, data_dir, "edge_id"@);
    paths::relative_names_are_appended(Platform::Android, data_dir, "edge_id"@);
    assert(data_dir.push('/') + "edge_id"@ =~= data_dir + "/edge_id"@);
    if id.len() > 0 {
        assert(0x20 < id[0] as int);
        assert(0x20 < id.last() as int);
    }
    text::outer_white_space_is_dropped(lead, id, tail);
}

/// An id that the worker assigns is kept exactly where it differs from the one
/// that the node has.
pub proof fn new_ids_are_kept(current: Seq<char>, id: Seq<char>)
    ensures
        is_new_id(current, Some(id)) <==> id != current,
        !is_new_id(current, None),
{
}

/// The manifest and the configuration file lie in the data directory under
/// their names.
pub proof fn files_lie_in_the_data_directory(
    c: Config,
    platform: Platform,
    data_dir: Seq<char>,
    dir: String,
)
    requires
        platform != Platform::Windows,
        data_dir.len() > 0,
        data_dir.last() != '/',
        dir@ == data_dir,
    ensures
        is_default(c, platform, data_dir) ==> c.cdn_manifest@ == data_dir + "/cdn_list.toml"@,
        config_places(Some(dir), platform)[1] == data_dir + "/config.toml"@,
{
    reveal_strlit("cdn_list.toml");
    reveal_strlit("/cdn_list.toml");
    reveal_strlit("config.toml");
    reveal_strlit("/config.toml");
    paths::relative_names_are_appended(platform, data_dir, "cdn_list.toml"@);
    paths::relative_names_are_appended(platform, data_dir, "config.toml"@);
    assert(data_dir.push('/') + "cdn_list.toml"@ =~= data_dir + "/cdn_list.toml"@);
    assert(data_dir.push('/') + "config.toml"@ =~= data_dir + "/config.toml"@);
}

/// The data directory is the one that the environment names, wherever the
/// program lies; without one it is the program's own on Windows, and one below
/// `/etc` elsewhere.
pub proof fn the_environment_names_the_data_directory(
    dir: String,
    exe: String,
    platform: Platform,
    exe_dir: Option<String>,
)
    ensures
        data_dir_of(Some(dir), platform, exe_dir) == dir@,
        data_dir_of(None, Platform::Windows, Some(exe)) == exe@,
        data_dir_of(None, Platform::Windows, None) == "/etc/edge-agent"@,
        data_dir_of(None, Platform::Other, exe_dir) == "/etc/edge-agent"@,
{
}

/// A connection id has 36 characters: hyphens at four places, the version as
/// the thirteenth digit, and hexadecimal digits elsewhere.
pub proof fn conn_ids_have_their_shape(id: Seq<char>, i: int)
    requires
        is_conn_id(id),
    ensures
        id.len() == 36,
        id[8] == '-' && id[13] == '-' && id[18] == '-' && id[23] == '-',
        id[14] == '4',
        0 <= i < 36 && i != 8 && i != 13 && i != 18 && i != 23 ==> 0x30 <= id[i] as int <= 0x39
            || 0x61 <= id[i] as int <= 0x66,
{
    assert(id[8] == '-');
    assert(id[13] == '-');
    assert(id[18] == '-');
    assert(id[23] == '-');
    if 0 <= i < 36 && i != 8 && i != 13 && i != 18 && i != 23 {
        assert(rules::is_hex(id[i]));
    }
}

} // verus!
