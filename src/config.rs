use vstd::prelude::*;

verus! {

/// A configuration document as a tree of plain values.
#[derive(Debug)]
pub enum ConfigValue {
    Str(String),
    Int(i64),
    Bool(bool),
    Table(Vec<(String, ConfigValue)>),
    /// Any other kind of value (a float, a date, an array).
    Other,
}

/// The value of the first entry at or after position `i` whose key is `key`.
pub open spec fn entry_from(t: Seq<(String, ConfigValue)>, key: Seq<char>, i: int) -> Option<
    ConfigValue,
>
    decreases t.len() - i,
{
    if i < 0 || i >= t.len() {
        None
    } else if t[i].0@ == key {
        Some(t[i].1)
    } else {
        entry_from(t, key, i + 1)
    }
}

/// The value under `key` where `v` is a table that has one.
pub open spec fn lookup(v: ConfigValue, key: Seq<char>) -> Option<ConfigValue> {
    match v {
        ConfigValue::Table(t) => entry_from(t@, key, 0),
        _ => None,
    }
}

/// What is wrong with a field.
#[derive(Debug, Clone, Copy, PartialEq, Eq)]
pub enum FieldProblem {
    Missing,
    WrongType,
}

/// A text field of a table.
pub open spec fn str_field(v: ConfigValue, key: Seq<char>) -> Result<Seq<char>, FieldProblem> {
    match lookup(v, key) {
        None => Err(FieldProblem::Missing),
        Some(ConfigValue::Str(s)) => Ok(s@),
        Some(_) => Err(FieldProblem::WrongType),
    }
}

/// An integer field of a table.
pub open spec fn int_field(v: ConfigValue, key: Seq<char>) -> Result<i64, FieldProblem> {
    match lookup(v, key) {
        None => Err(FieldProblem::Missing),
        Some(ConfigValue::Int(n)) => Ok(n),
        Some(_) => Err(FieldProblem::WrongType),
    }
}

impl ConfigValue {
    /// The value under `key`, where this is a table that has one.
    pub fn get(&self, key: &str) -> (r: Option<&ConfigValue>)
        ensures
            match r {
                Some(x) => lookup(*self, key@) == Some(*x),
                None => lookup(*self, key@) is None,
            },
    {
        match self {
            ConfigValue::Table(t) => {
                let wanted = String::from_str(key);
                let mut i: usize = 0;
                while i < t.len()
                    invariant
                        i <= t@.len(),
                        wanted@ == key@,
                        lookup(*self, key@) == entry_from(t@, key@, i as int),
                        *self == ConfigValue::Table(*t),
                    decreases t@.len() - i,
                {
                    if t[i].0 == wanted {
                        return Some(&t[i].1);
                    }
                    i = i + 1;
                }
                None
            },
            _ => None,
        }
    }

    /// The text under `key`: missing, of another type, or the text.
    pub fn get_str(&self, key: &str) -> (r: Result<String, FieldProblem>)
        ensures
            r matches Ok(s) ==> str_field(*self, key@) == Ok::<Seq<char>, FieldProblem>(s@),
            r matches Err(e) ==> str_field(*self, key@) == Err::<Seq<char>, FieldProblem>(e),
    {
        match self.get(key) {
            None => Err(FieldProblem::Missing),
            Some(ConfigValue::Str(s)) => Ok(s.clone()),
            Some(_) => Err(FieldProblem::WrongType),
        }
    }

    /// The integer under `key`: missing, of another type, or the integer.
    pub fn get_int(&self, key: &str) -> (r: Result<i64, FieldProblem>)
        ensures
            r == int_field(*self, key@),
    {
        match self.get(key) {
            None => Err(FieldProblem::Missing),
            Some(ConfigValue::Int(n)) => Ok(*n),
            Some(_) => Err(FieldProblem::WrongType),
        }
    }
}

/// A required key is missing or has the wrong type; each names the dotted
/// key, and the second also the expected type.
#[derive(Debug, Clone, Copy, PartialEq, Eq)]
pub enum TomlError {
    KeyNotFound(&'static str),
    WrongType(&'static str, &'static str),
}

/// The error for a field problem, naming the dotted key.
pub open spec fn field_error(p: FieldProblem, key: &'static str, ty: &'static str) -> TomlError {
    match p {
        FieldProblem::Missing => TomlError::KeyNotFound(key),
        FieldProblem::WrongType => TomlError::WrongType(key, ty),
    }
}

fn to_error(p: FieldProblem, key: &'static str, ty: &'static str) -> (r: TomlError)
    ensures
        r == field_error(p, key, ty),
{
    match p {
        FieldProblem::Missing => TomlError::KeyNotFound(key),
        FieldProblem::WrongType => TomlError::WrongType(key, ty),
    }
}

/// `pat` stands somewhere in `s`.
pub open spec fn has_infix(s: Seq<char>, pat: Seq<char>) -> bool {
    exists|i: int| 0 <= i && i + pat.len() <= s.len() && #[trigger] s.subrange(i, i + pat.len()) == pat
}

fn contains_scheme_sep(s: &str) -> (r: bool)
    ensures
        r == has_infix(s@, seq![':', '/', '/']),
{
    let c = crate::text::chars_of(s);
    let ghost pat = seq![':', '/', '/'];
    let n = c.len();
    if n < 3 {
        assert forall|i: int| 0 <= i && i + 3 <= n implies #[trigger] s@.subrange(i, i + 3) != pat by {}
        return false;
    }
    let mut i: usize = 0;
    while i < n - 2
        invariant
            c@ == s@,
            pat == seq![':', '/', '/'],
            n == c@.len(),
            n >= 3,
            i <= n - 2,
            forall|j: int| 0 <= j < i ==> #[trigger] s@.subrange(j, j + 3) != pat,
        decreases n - i,
    {
        if c[i] == ':' && c[i + 1] == '/' && c[i + 2] == '/' {
            assert(s@.subrange(i as int, i + 3) =~= pat);
            return true;
        }
        assert(s@.subrange(i as int, i + 3)[0] == c@[i as int]);
        assert(s@.subrange(i as int, i + 3)[1] == c@[i + 1]);
        assert(s@.subrange(i as int, i + 3)[2] == c@[i + 2]);
        i = i + 1;
    }
    false
}

/// The admin UI's settings are not usable.
#[derive(Debug, Clone, Copy, PartialEq, Eq)]
pub enum UiError {
    YamlError(TomlError),
    /// `UI.URL` must be a host name, without a scheme such as `http://`.
    UrlContainsProtocol,
}

/// The common settings are not usable.
#[derive(Debug, Clone, Copy, PartialEq, Eq)]
pub enum CommonError {
    TomlError(TomlError),
}

/// The API settings are not usable.
#[derive(Debug, Clone, Copy, PartialEq, Eq)]
pub enum ApiError {
    YamlError(TomlError),
}

/// The configuration document is not usable.
#[derive(Debug, Clone, Copy, PartialEq, Eq)]
pub enum ConfigError {
    UiError(UiError),
    ApiError(ApiError),
    CommonError(CommonError),
}

/// Settings of the admin UI.
#[derive(Debug)]
pub struct Ui {
    pub url: String,
}

/// Settings shared by the server and the command line.
#[derive(Debug)]
pub struct Common {
    pub port: u16,
    pub loglevel: String,
    pub socket: u16,
}

/// Settings of the handwriting-recognition service.
#[derive(Debug)]
pub struct HWR {
    pub app_key: String,
    pub hmac: String,
}

/// Settings of the mail server.
#[derive(Debug)]
pub struct SMTP {
    pub server: String,
    pub username: String,
    pub password: String,
}

/// Settings of the API the tablets talk to.
#[derive(Debug)]
pub struct Api {
    pub url: String,
    pub secret_key: String,
    pub data_dir: String,
    pub hwr: Option<HWR>,
    pub smtp: Option<SMTP>,
}

/// The whole configuration.
#[derive(Debug)]
pub struct Config {
    pub api: Api,
    pub ui: Ui,
    pub common: Common,
}

/// The `[UI]` table's URL, or what is wrong with it.
pub open spec fn ui_spec(doc: ConfigValue) -> Result<Seq<char>, UiError> {
    match lookup(doc, "UI"@) {
        None => Err(UiError::YamlError(TomlError::KeyNotFound("UI"))),
        Some(ui) => match str_field(ui, "URL"@) {
            Err(p) => Err(UiError::YamlError(field_error(p, "UI.URL", "String"))),
            Ok(u) => if has_infix(u, seq![':', '/', '/']) {
                Err(UiError::UrlContainsProtocol)
            } else {
                Ok(u)
            },
        },
    }
}

/// A port number read from an integer field: `lo` to 65535.
pub open spec fn port_spec(f: Result<i64, FieldProblem>, key: &'static str, lo: int) -> Result<
    u16,
    TomlError,
> {
    match f {
        Err(p) => Err(field_error(p, key, "Integer")),
        Ok(n) => if lo <= n <= 65535 {
            Ok(n as u16)
        } else {
            Err(TomlError::WrongType(key, "Integer"))
        },
    }
}

/// The common settings as plain values.
pub struct CommonFields {
    pub port: u16,
    pub loglevel: Seq<char>,
    pub socket: u16,
}

/// The `[COMMON]` table, checked in the order PORT (1 to 65535), LOGLEVEL,
/// SOCKET (0 to 65535).
pub open spec fn common_spec(doc: ConfigValue) -> Result<CommonFields, CommonError> {
    match lookup(doc, "COMMON"@) {
        None => Err(CommonError::TomlError(TomlError::KeyNotFound("COMMON"))),
        Some(c) => match port_spec(int_field(c, "PORT"@), "COMMON.PORT", 1) {
            Err(e) => Err(CommonError::TomlError(e)),
            Ok(port) => match str_field(c, "LOGLEVEL"@) {
                Err(p) => Err(CommonError::TomlError(field_error(p, "COMMON.LOGLEVEL", "String"))),
                Ok(loglevel) => match port_spec(int_field(c, "SOCKET"@), "COMMON.SOCKET", 0) {
                    Err(e) => Err(CommonError::TomlError(e)),
                    Ok(socket) => Ok(CommonFields { port, loglevel, socket }),
                },
            },
        },
    }
}

fn port_field(c: &ConfigValue, name: &str, key: &'static str, lo: i64) -> (r: Result<u16, TomlError>)
    requires
        0 <= lo,
    ensures
        r == port_spec(int_field(*c, name@), key, lo as int),
{
    match c.get_int(name) {
        Err(p) => Err(to_error(p, key, "Integer")),
        Ok(n) => if lo <= n && n <= 65535 {
            Ok(n as u16)
        } else {
            Err(TomlError::WrongType(key, "Integer"))
        },
    }
}

fn str_setting(c: &ConfigValue, name: &str, key: &'static str) -> (r: Result<String, TomlError>)
    ensures
        r matches Ok(s) ==> str_field(*c, name@) == Ok::<Seq<char>, FieldProblem>(s@),
        r matches Err(e) ==> exists|p: FieldProblem|
            str_field(*c, name@) == Err::<Seq<char>, FieldProblem>(p) && e == field_error(
                p,
                key,
                "String",
            ),
{
    match c.get_str(name) {
        Ok(s) => Ok(s),
        Err(p) => Err(to_error(p, key, "String")),
    }
}

impl Ui {
    /// Reads the `[UI]` table: `URL` must be text without `://`.
    pub fn create(doc: &ConfigValue) -> (r: Result<Ui, UiError>)
        ensures
            r matches Ok(ui) ==> ui_spec(*doc) == Ok::<Seq<char>, UiError>(ui.url@),
            r matches Err(e) ==> ui_spec(*doc) == Err::<Seq<char>, UiError>(e),
    {
        let ui = match doc.get("UI") {
            None => {
                return Err(UiError::YamlError(TomlError::KeyNotFound("UI")));
            },
            Some(u) => u,
        };
        let url = match str_setting(ui, "URL", "UI.URL") {
            Err(e) => {
                return Err(UiError::YamlError(e));
            },
            Ok(u) => u,
        };
        if contains_scheme_sep(url.as_str()) {
            return Err(UiError::UrlContainsProtocol);
        }
        Ok(Ui { url })
    }
}

impl Common {
    /// Reads the `[COMMON]` table.
    pub fn create(doc: &ConfigValue) -> (r: Result<Common, CommonError>)
        ensures
            r matches Ok(c) ==> common_spec(*doc) == Ok::<CommonFields, CommonError>(
                CommonFields { port: c.port, loglevel: c.loglevel@, socket: c.socket },
            ),
            r matches Err(e) ==> common_spec(*doc) == Err::<CommonFields, CommonError>(e),
    {
        let c = match doc.get("COMMON") {
            None => {
                return Err(CommonError::TomlError(TomlError::KeyNotFound("COMMON")));
            },
            Some(c) => c,
        };
        let port = match port_field(c, "PORT", "COMMON.PORT", 1) {
            Err(e) => {
                return Err(CommonError::TomlError(e));
            },
            Ok(p) => p,
        };
        let loglevel = match str_setting(c, "LOGLEVEL", "COMMON.LOGLEVEL") {
            Err(e) => {
                return Err(CommonError::TomlError(e));
            },
            Ok(l) => l,
        };
        let socket = match port_field(c, "SOCKET", "COMMON.SOCKET", 0) {
            Err(e) => {
                return Err(CommonError::TomlError(e));
            },
            Ok(p) => p,
        };
        Ok(Common { port, loglevel, socket })
    }
}

/// The mail server settings as plain values.
pub struct SmtpFields {
    pub server: Seq<char>,
    pub username: Seq<char>,
    pub password: Seq<char>,
}

/// The handwriting-recognition settings as plain values.
pub struct HwrFields {
    pub app_key: Seq<char>,
    pub hmac: Seq<char>,
}

/// The API settings as plain values.
pub struct ApiFields {
    pub url: Seq<char>,
    pub secret_key: Seq<char>,
    pub data_dir: Seq<char>,
    pub smtp: Option<SmtpFields>,
    pub hwr: Option<HwrFields>,
}

/// The optional `[API.SMTP]` group: absent, or all three texts.
pub open spec fn smtp_spec(api: ConfigValue) -> Result<Option<SmtpFields>, TomlError> {
    match lookup(api, "SMTP"@) {
        None => Ok(None),
        Some(g) => match str_field(g, "SERVER"@) {
            Err(p) => Err(field_error(p, "API.SMTP.SERVER", "String")),
            Ok(server) => match str_field(g, "USERNAME"@) {
                Err(p) => Err(field_error(p, "API.SMTP.USERNAME", "String")),
                Ok(username) => match str_field(g, "PASSWORD"@) {
                    Err(p) => Err(field_error(p, "API.SMTP.PASSWORD", "String")),
                    Ok(password) => Ok(Some(SmtpFields { server, username, password })),
                },
            },
        },
    }
}

/// The optional `[API.HWR]` group: absent, or both texts.
pub open spec fn hwr_spec(api: ConfigValue) -> Result<Option<HwrFields>, TomlError> {
    match lookup(api, "HWR"@) {
        None => Ok(None),
        Some(g) => match str_field(g, "APPLICATIONKEY"@) {
            Err(p) => Err(field_error(p, "API.HWR.APPLICATIONKEY", "String")),
            Ok(app_key) => match str_field(g, "HMAC"@) {
                Err(p) => Err(field_error(p, "API.HWR.HMAC", "String")),
                Ok(hmac) => Ok(Some(HwrFields { app_key, hmac })),
            },
        },
    }
}

/// The `[API]` table, checked in the order URL, SECRET_KEY, DATADIR, the
/// mail group, the handwriting group.
pub open spec fn api_spec(doc: ConfigValue) -> Result<ApiFields, ApiError> {
    match lookup(doc, "API"@) {
        None => Err(ApiError::YamlError(TomlError::KeyNotFound("API"))),
        Some(api) => match str_field(api, "URL"@) {
            Err(p) => Err(ApiError::YamlError(field_error(p, "API.URL", "String"))),
            Ok(url) => match str_field(api, "SECRET_KEY"@) {
                Err(p) => Err(ApiError::YamlError(field_error(p, "API.SECRET_KEY", "String"))),
                Ok(secret_key) => match str_field(api, "DATADIR"@) {
                    Err(p) => Err(ApiError::YamlError(field_error(p, "API.DATADIR", "String"))),
                    Ok(data_dir) => match smtp_spec(api) {
                        Err(e) => Err(ApiError::YamlError(e)),
                        Ok(smtp) => match hwr_spec(api) {
                            Err(e) => Err(ApiError::YamlError(e)),
                            Ok(hwr) => Ok(ApiFields { url, secret_key, data_dir, smtp, hwr }),
                        },
                    },
                },
            },
        },
    }
}

impl SMTP {
    /// The group's settings as plain values.
    pub open spec fn fields(&self) -> SmtpFields {
        SmtpFields { server: self.server@, username: self.username@, password: self.password@ }
    }

    fn create(api: &ConfigValue) -> (r: Result<Option<SMTP>, TomlError>)
        ensures
            r matches Ok(o) ==> smtp_spec(*api) == Ok::<Option<SmtpFields>, TomlError>(
                match o {
                    Some(m) => Some(m.fields()),
                    None => None,
                },
            ),
            r matches Err(e) ==> smtp_spec(*api) == Err::<Option<SmtpFields>, TomlError>(e),
    {
        let g = match api.get("SMTP") {
            None => {
                return Ok(None);
            },
            Some(g) => g,
        };
        let server = str_setting(g, "SERVER", "API.SMTP.SERVER")?;
        let username = str_setting(g, "USERNAME", "API.SMTP.USERNAME")?;
        let password = str_setting(g, "PASSWORD", "API.SMTP.PASSWORD")?;
        Ok(Some(SMTP { server, username, password }))
    }
}

impl HWR {
    /// The group's settings as plain values.
    pub open spec fn fields(&self) -> HwrFields {
        HwrFields { app_key: self.app_key@, hmac: self.hmac@ }
    }

    fn create(api: &ConfigValue) -> (r: Result<Option<HWR>, TomlError>)
        ensures
            r matches Ok(o) ==> hwr_spec(*api) == Ok::<Option<HwrFields>, TomlError>(
                match o {
                    Some(h) => Some(h.fields()),
                    None => None,
                },
            ),
            r matches Err(e) ==> hwr_spec(*api) == Err::<Option<HwrFields>, TomlError>(e),
    {
        let g = match api.get("HWR") {
            None => {
                return Ok(None);
            },
            Some(g) => g,
        };
        let app_key = str_setting(g, "APPLICATIONKEY", "API.HWR.APPLICATIONKEY")?;
        let hmac = str_setting(g, "HMAC", "API.HWR.HMAC")?;
        Ok(Some(HWR { app_key, hmac }))
    }
}

impl Api {
    /// The settings as plain values.
    pub open spec fn fields(&self) -> ApiFields {
        ApiFields {
            url: self.url@,
            secret_key: self.secret_key@,
            data_dir: self.data_dir@,
            smtp: match self.smtp {
                Some(m) => Some(m.fields()),
                None => None,
            },
            hwr: match self.hwr {
                Some(h) => Some(h.fields()),
                None => None,
            },
        }
    }

    /// Reads the `[API]` table; the mail and handwriting groups are optional,
    /// but each group that is present must be complete.
    pub fn create(doc: &ConfigValue) -> (r: Result<Api, ApiError>)
        ensures
            r matches Ok(a) ==> api_spec(*doc) == Ok::<ApiFields, ApiError>(a.fields()),
            r matches Err(e) ==> api_spec(*doc) == Err::<ApiFields, ApiError>(e),
    {
        let api = match doc.get("API") {
            None => {
                return Err(ApiError::YamlError(TomlError::KeyNotFound("API")));
            },
            Some(a) => a,
        };
        let url = match str_setting(api, "URL", "API.URL") {
            Err(e) => {
                return Err(ApiError::YamlError(e));
            },
            Ok(u) => u,
        };
        let secret_key = match str_setting(api, "SECRET_KEY", "API.SECRET_KEY") {
            Err(e) => {
                return Err(ApiError::YamlError(e));
            },
            Ok(u) => u,
        };
        let data_dir = match str_setting(api, "DATADIR", "API.DATADIR") {
            Err(e) => {
                return Err(ApiError::YamlError(e));
            },
            Ok(u) => u,
        };
        let smtp = match SMTP::create(api) {
            Err(e) => {
                return Err(ApiError::YamlError(e));
            },
            Ok(m) => m,
        };
        let hwr = match HWR::create(api) {
            Err(e) => {
                return Err(ApiError::YamlError(e));
            },
            Ok(h) => h,
        };
        Ok(Api { url, secret_key, data_dir, hwr, smtp })
    }
}

/// The whole configuration, checked in the order UI, API, COMMON.
pub open spec fn config_ok(doc: ConfigValue) -> bool {
    ui_spec(doc) is Ok && api_spec(doc) is Ok && common_spec(doc) is Ok
}

impl Config {
    /// Reads the three tables of the configuration document; the first
    /// problem found, in the order UI, API, COMMON, is reported.
    pub fn create(doc: &ConfigValue) -> (r: Result<Config, ConfigError>)
        ensures
            r is Ok <==> config_ok(*doc),
            r matches Ok(c) ==> ui_spec(*doc) == Ok::<Seq<char>, UiError>(c.ui.url@) && api_spec(*doc)
                == Ok::<ApiFields, ApiError>(c.api.fields()) && common_spec(*doc) == Ok::<
                CommonFields,
                CommonError,
            >(CommonFields { port: c.common.port, loglevel: c.common.loglevel@, socket: c.common.socket }),
            r matches Err(ConfigError::UiError(e)) ==> ui_spec(*doc) == Err::<Seq<char>, UiError>(e),
            r matches Err(ConfigError::ApiError(e)) ==> ui_spec(*doc) is Ok && api_spec(*doc) == Err::<
                ApiFields,
                ApiError,
            >(e),
            r matches Err(ConfigError::CommonError(e)) ==> ui_spec(*doc) is Ok && api_spec(*doc) is Ok
                && common_spec(*doc) == Err::<CommonFields, CommonError>(e),
    {
        let ui = match Ui::create(doc) {
            Err(e) => {
                return Err(ConfigError::UiError(e));
            },
            Ok(u) => u,
        };
        let api = match Api::create(doc) {
            Err(e) => {
                return Err(ConfigError::ApiError(e));
            },
            Ok(a) => a,
        };
        let common = match Common::create(doc) {
            Err(e) => {
                return Err(ConfigError::CommonError(e));
            },
            Ok(c) => c,
        };
        Ok(Config { api, ui, common })
    }
}

} // verus!
