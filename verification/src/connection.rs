//! Connection details of a server, whose values may be kept in secrets.
//!
//! The details are resolved against the answers of the cluster so far. As long
//! as an answer is missing, the resolution names the secret to ask for next.

pub mod effects;

use crate::controllers::secrets::{
    fetched_field, Fetched, SecretError, SecretErrorView, SecretRef,
};
use crate::outside::{
    holds_fixed, parse_pg_url, pg_settings, pg_url_settings, STATEMENT_CACHE_CAPACITY,
};
use sqlx::postgres::PgConnectOptions;
use vstd::prelude::*;

verus! {

/// The name under which the operator connects to servers.
pub const APPLICATION_NAME: &'static str = "controller";

/// Database connection details.
#[derive(Clone, Debug)]
pub enum Connection {
    Url(StringValue),
    Details(ConnectionDetails),
}

#[derive(Clone, Debug)]
pub struct ConnectionDetails {
    /// The host to connect to.
    pub host: StringValue,
    /// The username of the administrative user.
    pub user: StringValue,
    /// The password of the administrative user.
    pub password: StringValue,
    /// The database to connect to for the administrative user; defaults to `postgres`.
    pub dbname: Option<StringValue>,
}

/// A literal value, or a reference to a secret that holds it.
#[derive(Clone, Debug)]
pub enum StringValue {
    Value(String),
    SecretRef(SecretRef),
}

/// How far a resolution has come.
pub enum Resolution<T> {
    /// The named secret is needed.
    Pending(String),
    /// The resolution is over.
    Ready(T),
}

/// How far the resolution of texts has come.
pub enum ResolutionView<T> {
    Pending(Seq<char>),
    Ready(Result<T, SecretErrorView>),
}

/// Why a value cannot be resolved.
#[derive(Debug)]
pub enum ResolveValueError {
    SecretError(SecretError),
}

/// Why connection details cannot be resolved.
#[derive(Debug)]
pub enum ConnectionDetailsError {
    DatabaseError(String),
    ValueResolution(ResolveValueError),
}

/// The texts of a [`ConnectionDetailsError`].
pub enum ConnectionDetailsErrorView {
    DatabaseError(Seq<char>),
    ValueResolution(SecretErrorView),
}

impl View for ResolveValueError {
    type V = SecretErrorView;

    open spec fn view(&self) -> SecretErrorView {
        match self {
            ResolveValueError::SecretError(error) => error@,
        }
    }
}

impl View for ConnectionDetailsError {
    type V = ConnectionDetailsErrorView;

    open spec fn view(&self) -> ConnectionDetailsErrorView {
        match self {
            ConnectionDetailsError::DatabaseError(text) => {
                ConnectionDetailsErrorView::DatabaseError(text@)
            },
            ConnectionDetailsError::ValueResolution(error) => {
                ConnectionDetailsErrorView::ValueResolution(error@)
            },
        }
    }
}

impl ConnectionDetailsErrorView {
    /// The error for users.
    pub open spec fn text(self) -> Seq<char> {
        match self {
            ConnectionDetailsErrorView::DatabaseError(text) => text,
            ConnectionDetailsErrorView::ValueResolution(error) => error.text(),
        }
    }
}

impl ResolveValueError {
    /// The error for users.
    pub fn to_string(&self) -> (res: String)
        ensures
            res@ == self@.text(),
    {
        match self {
            ResolveValueError::SecretError(error) => error.to_string(),
        }
    }
}

impl ConnectionDetailsError {
    /// The error for users.
    pub fn to_string(&self) -> (res: String)
        ensures
            res@ == self@.text(),
    {
        match self {
            ConnectionDetailsError::DatabaseError(text) => text.clone(),
            ConnectionDetailsError::ValueResolution(error) => error.to_string(),
        }
    }
}

impl Default for Connection {
    fn default() -> (res: Self)
        ensures
            res matches Connection::Url(StringValue::Value(url)) && url@
                == "postgres://localhost:5432/postgres"@,
    {
        Connection::Url(StringValue::Value("postgres://localhost:5432/postgres".to_owned()))
    }
}

/// How far the resolution of a text has come.
pub open spec fn text_resolution(
    res: Resolution<Result<String, ResolveValueError>>,
) -> ResolutionView<Seq<char>> {
    match res {
        Resolution::Pending(name) => ResolutionView::Pending(name@),
        Resolution::Ready(Ok(text)) => ResolutionView::Ready(Ok(text@)),
        Resolution::Ready(Err(error)) => ResolutionView::Ready(Err(error@)),
    }
}

impl StringValue {
    /// How many secrets are asked for to resolve the value.
    pub open spec fn lookups(self) -> nat {
        match self {
            StringValue::Value(_) => 0,
            StringValue::SecretRef(_) => 1,
        }
    }

    /// The value, where `used` answers went to the values before it: a literal
    /// is itself, and a reference takes the next answer.
    pub open spec fn resolution(self, answers: Seq<Fetched>, used: nat) -> ResolutionView<
        Seq<char>,
    > {
        match self {
            StringValue::Value(text) => ResolutionView::Ready(Ok(text@)),
            StringValue::SecretRef(secret) => if used < answers.len() {
                ResolutionView::Ready(fetched_field(answers[used as int], secret.key@))
            } else {
                ResolutionView::Pending(secret.name@)
            },
        }
    }

    /// How many secrets are asked for to resolve the value.
    fn lookup_count(&self) -> (res: usize)
        ensures
            res == self.lookups(),
    {
        match self {
            StringValue::Value(_) => 0,
            StringValue::SecretRef(_) => 1,
        }
    }

    /// Resolves the value, where `used` answers went to the values before it.
    pub fn resolve(&self, answers: &Vec<Fetched>, used: usize) -> (res: Resolution<
        Result<String, ResolveValueError>,
    >)
        ensures
            text_resolution(res) == self.resolution(answers@, used as nat),
    {
        match self {
            StringValue::Value(text) => Resolution::Ready(Ok(text.clone())),
            StringValue::SecretRef(secret) => {
                if used < answers.len() {
                    match secret.get_field(&answers[used]) {
                        Ok(text) => Resolution::Ready(Ok(text)),
                        Err(error) => Resolution::Ready(
                            Err(ResolveValueError::SecretError(error)),
                        ),
                    }
                } else {
                    Resolution::Pending(secret.name.clone())
                }
            },
        }
    }
}

/// The texts of values, resolved one after the other: the first that is not
/// resolved, or that fails, decides.
pub open spec fn resolved_in_order(
    values: Seq<StringValue>,
    answers: Seq<Fetched>,
    used: nat,
) -> ResolutionView<Seq<Seq<char>>>
    decreases values.len(),
{
    if values.len() == 0 {
        ResolutionView::Ready(Ok(Seq::empty()))
    } else {
        match values[0].resolution(answers, used) {
            ResolutionView::Pending(name) => ResolutionView::Pending(name),
            ResolutionView::Ready(Err(error)) => ResolutionView::Ready(Err(error)),
            ResolutionView::Ready(Ok(text)) => {
                match resolved_in_order(
                    values.drop_first(),
                    answers,
                    used + values[0].lookups(),
                ) {
                    ResolutionView::Ready(Ok(texts)) => ResolutionView::Ready(
                        Ok(seq![text] + texts),
                    ),
                    other => other,
                }
            },
        }
    }
}

/// How many secrets are asked for to resolve values.
pub open spec fn total_lookups(values: Seq<StringValue>) -> nat
    decreases values.len(),
{
    if values.len() == 0 {
        0
    } else {
        values[0].lookups() + total_lookups(values.drop_first())
    }
}

/// As long as values are not resolved, answers are missing.
proof fn lemma_pending_in_order(values: Seq<StringValue>, answers: Seq<Fetched>, used: nat)
    ensures
        resolved_in_order(values, answers, used) is Pending ==> answers.len() < used
            + total_lookups(values),
    decreases values.len(),
{
    if values.len() > 0 {
        lemma_pending_in_order(values.drop_first(), answers, used + values[0].lookups());
    }
}

/// Options that hold the given settings, and no socket that would be used in
/// place of the host.
pub open spec fn has_settings(
    options: PgConnectOptions,
    host: Seq<char>,
    user: Seq<char>,
    password: Seq<char>,
    dbname: Seq<char>,
) -> bool {
    let settings = pg_settings(options);
    &&& settings.contains_pair("host"@, host)
    &&& settings.contains_pair("username"@, user)
    &&& settings.contains_pair("password"@, password)
    &&& settings.contains_pair("database"@, dbname)
    &&& settings.contains_pair("application_name"@, APPLICATION_NAME@)
    &&& !settings.contains_key("socket"@)
    &&& settings.contains_pair("statement_cache_capacity"@, STATEMENT_CACHE_CAPACITY@)
}

/// The names of the settings differ from each other.
proof fn lemma_setting_names_differ()
    ensures
        "host"@ != "username"@,
        "host"@ != "password"@,
        "host"@ != "database"@,
        "host"@ != "application_name"@,
        "host"@ != "socket"@,
        "host"@ != "statement_cache_capacity"@,
        "host"@ != "options"@,
        "username"@ != "password"@,
        "username"@ != "database"@,
        "username"@ != "application_name"@,
        "username"@ != "socket"@,
        "username"@ != "statement_cache_capacity"@,
        "password"@ != "database"@,
        "password"@ != "application_name"@,
        "password"@ != "socket"@,
        "password"@ != "statement_cache_capacity"@,
        "database"@ != "application_name"@,
        "database"@ != "socket"@,
        "database"@ != "statement_cache_capacity"@,
        "application_name"@ != "socket"@,
        "application_name"@ != "statement_cache_capacity"@,
        "application_name"@ != "options"@,
        "application_name"@ != "port"@,
        "application_name"@ != "sslmode"@,
        "options"@ != "port"@,
        "options"@ != "socket"@,
        "options"@ != "sslmode"@,
{
    reveal_strlit("host");
    reveal_strlit("port");
    reveal_strlit("socket");
    reveal_strlit("username");
    reveal_strlit("password");
    reveal_strlit("database");
    reveal_strlit("application_name");
    reveal_strlit("sslmode");
    reveal_strlit("statement_cache_capacity");
    reveal_strlit("options");
    assert("host"@.len() == 4);
    assert("port"@.len() == 4);
    assert("socket"@.len() == 6);
    assert("application_name"@.len() == 16);
    assert("statement_cache_capacity"@.len() == 24);
    assert("username"@.len() == 8 && "username"@[0] == 'u');
    assert("password"@.len() == 8 && "password"@[0] == 'p');
    assert("database"@.len() == 8 && "database"@[0] == 'd');
    assert("options"@.len() == 7 && "options"@[0] == 'o');
    assert("sslmode"@.len() == 7 && "sslmode"@[0] == 's');
}

/// The name of the operator is written into settings of a URL as if the URL
/// fixed it.
proof fn lemma_named_fixed(
    settings: Map<Seq<char>, Seq<char>>,
    fixed: Map<Seq<char>, Seq<char>>,
    name: Seq<char>,
)
    requires
        holds_fixed(settings, fixed),
    ensures
        holds_fixed(
            settings.insert("application_name"@, name),
            fixed.insert("application_name"@, name),
        ),
{
    lemma_setting_names_differ();
    let kept = fixed.insert("application_name"@, name).remove("options"@);
    let named = settings.insert("application_name"@, name);
    assert forall|key: Seq<char>| #[trigger] kept.dom().contains(key) implies {
        &&& #[trigger] named.dom().contains(key)
        &&& kept[key] == named[key]
    } by {
        if key != "application_name"@ {
            assert(fixed.remove("options"@).dom().contains(key));
            assert(settings.dom().contains(key));
        }
    }
}

/// Writes details and the name of the operator into options; what else they
/// hold is kept.
pub fn with_details(
    options: PgConnectOptions,
    host: &str,
    user: &str,
    password: &str,
    dbname: &str,
) -> (res: PgConnectOptions)
    ensures
        pg_settings(res) == pg_settings(options).insert("host"@, host@).insert(
            "username"@,
            user@,
        ).insert("password"@, password@).insert("database"@, dbname@).insert(
            "application_name"@,
            APPLICATION_NAME@,
        ),
{
    options.host(host).username(user).password(password).database(dbname).application_name(
        APPLICATION_NAME,
    )
}

/// Goes on after a URL was parsed, or was refused: the name of the operator is
/// written into its options, and what else they hold is kept.
pub fn url_parsed(parsed: Result<PgConnectOptions, String>) -> (res: Result<
    PgConnectOptions,
    ConnectionDetailsError,
>)
    ensures
        match parsed {
            Ok(options) => {
                &&& res matches Ok(got)
                &&& pg_settings(got) == pg_settings(options).insert(
                    "application_name"@,
                    APPLICATION_NAME@,
                )
            },
            Err(text) => res == Err::<PgConnectOptions, _>(
                ConnectionDetailsError::DatabaseError(text),
            ),
        },
{
    match parsed {
        Ok(options) => Ok(options.application_name(APPLICATION_NAME)),
        Err(text) => Err(ConnectionDetailsError::DatabaseError(text)),
    }
}

impl ConnectionDetails {
    /// The values of the details, in the order in which they are resolved.
    pub open spec fn values(self) -> Seq<StringValue> {
        match self.dbname {
            Some(dbname) => seq![self.host, self.user, self.password, dbname],
            None => seq![self.host, self.user, self.password],
        }
    }

    /// The result is what the answers so far allow.
    pub open spec fn resolves_to(
        self,
        answers: Seq<Fetched>,
        res: Resolution<Result<PgConnectOptions, ResolveValueError>>,
    ) -> bool {
        match resolved_in_order(self.values(), answers, 0) {
            ResolutionView::Pending(name) => res matches Resolution::Pending(pending) && pending@
                == name,
            ResolutionView::Ready(Err(error)) => {
                res matches Resolution::Ready(Err(got)) && got@ == error
            },
            ResolutionView::Ready(Ok(texts)) => {
                &&& res matches Resolution::Ready(Ok(options))
                &&& has_settings(
                    options,
                    texts[0],
                    texts[1],
                    texts[2],
                    if self.dbname is Some {
                        texts[3]
                    } else {
                        "postgres"@
                    },
                )
            },
        }
    }

    /// The texts of the details, one after the other: the first that is not
    /// resolved, or that fails, decides.
    spec fn texts(self, answers: Seq<Fetched>) -> ResolutionView<Seq<Seq<char>>> {
        let first = self.host.lookups();
        let second = first + self.user.lookups();
        let third = second + self.password.lookups();
        match self.host.resolution(answers, 0) {
            ResolutionView::Pending(name) => ResolutionView::Pending(name),
            ResolutionView::Ready(Err(error)) => ResolutionView::Ready(Err(error)),
            ResolutionView::Ready(Ok(host)) => match self.user.resolution(answers, first) {
                ResolutionView::Pending(name) => ResolutionView::Pending(name),
                ResolutionView::Ready(Err(error)) => ResolutionView::Ready(Err(error)),
                ResolutionView::Ready(Ok(user)) => match self.password.resolution(
                    answers,
                    second,
                ) {
                    ResolutionView::Pending(name) => ResolutionView::Pending(name),
                    ResolutionView::Ready(Err(error)) => ResolutionView::Ready(Err(error)),
                    ResolutionView::Ready(Ok(password)) => match self.dbname {
                        None => ResolutionView::Ready(Ok(seq![host, user, password])),
                        Some(dbname) => match dbname.resolution(answers, third) {
                            ResolutionView::Pending(name) => ResolutionView::Pending(name),
                            ResolutionView::Ready(Err(error)) => ResolutionView::Ready(
                                Err(error),
                            ),
                            ResolutionView::Ready(Ok(dbname)) => ResolutionView::Ready(
                                Ok(seq![host, user, password, dbname]),
                            ),
                        },
                    },
                },
            },
        }
    }

    /// The details are resolved in the order of their values.
    proof fn lemma_texts(self, answers: Seq<Fetched>)
        ensures
            resolved_in_order(self.values(), answers, 0) == self.texts(answers),
    {
        reveal_with_fuel(resolved_in_order, 5);
        let rest1 = self.values().drop_first();
        let rest2 = rest1.drop_first();
        let rest3 = rest2.drop_first();
        assert(self.values()[0] == self.host);
        assert(rest1[0] == self.user);
        assert(rest2[0] == self.password);
        if self.dbname is Some {
            assert(rest3[0] == self.dbname->0);
            assert(rest3.drop_first().len() == 0);
        } else {
            assert(rest3.len() == 0);
        }
        let whole = resolved_in_order(self.values(), answers, 0);
        match (whole, self.texts(answers)) {
            (ResolutionView::Ready(Ok(got)), ResolutionView::Ready(Ok(texts))) => {
                assert(got =~= texts);
            },
            _ => {},
        }
    }

    /// Resolves the details against the answers so far.
    pub fn resolve(&self, answers: &Vec<Fetched>) -> (res: Resolution<
        Result<PgConnectOptions, ResolveValueError>,
    >)
        ensures
            self.resolves_to(answers@, res),
    {
        proof {
            self.lemma_texts(answers@);
            lemma_setting_names_differ();
        }
        let used: usize = 0;
        let host = match self.host.resolve(answers, used) {
            Resolution::Pending(name) => return Resolution::Pending(name),
            Resolution::Ready(Err(error)) => return Resolution::Ready(Err(error)),
            Resolution::Ready(Ok(text)) => text,
        };
        let used: usize = used + self.host.lookup_count();
        let user = match self.user.resolve(answers, used) {
            Resolution::Pending(name) => return Resolution::Pending(name),
            Resolution::Ready(Err(error)) => return Resolution::Ready(Err(error)),
            Resolution::Ready(Ok(text)) => text,
        };
        let used: usize = used + self.user.lookup_count();
        let password = match self.password.resolve(answers, used) {
            Resolution::Pending(name) => return Resolution::Pending(name),
            Resolution::Ready(Err(error)) => return Resolution::Ready(Err(error)),
            Resolution::Ready(Ok(text)) => text,
        };
        let used: usize = used + self.password.lookup_count();
        let dbname = match &self.dbname {
            None => "postgres".to_owned(),
            Some(value) => match value.resolve(answers, used) {
                Resolution::Pending(name) => return Resolution::Pending(name),
                Resolution::Ready(Err(error)) => return Resolution::Ready(Err(error)),
                Resolution::Ready(Ok(text)) => text,
            },
        };
        Resolution::Ready(
            Ok(
                with_details(
                    PgConnectOptions::new(),
                    host.as_str(),
                    user.as_str(),
                    password.as_str(),
                    dbname.as_str(),
                ),
            ),
        )
    }
}

impl Connection {
    /// How many secrets are asked for to resolve the connection.
    pub open spec fn lookups(self) -> nat {
        match self {
            Connection::Url(value) => value.lookups(),
            Connection::Details(details) => total_lookups(details.values()),
        }
    }

    /// The result is what the answers so far allow. The options of a URL hold
    /// the settings that the URL fixes, its port, its socket and its TLS mode
    /// among them, but for the application name. Its startup options end those
    /// of the connection.
    pub open spec fn resolves_to(
        self,
        answers: Seq<Fetched>,
        res: Resolution<Result<PgConnectOptions, ConnectionDetailsError>>,
    ) -> bool {
        match self {
            Connection::Url(value) => match value.resolution(answers, 0) {
                ResolutionView::Pending(name) => {
                    res matches Resolution::Pending(pending) && pending@ == name
                },
                ResolutionView::Ready(Err(error)) => {
                    &&& res matches Resolution::Ready(Err(got))
                    &&& got@ == ConnectionDetailsErrorView::ValueResolution(error)
                },
                ResolutionView::Ready(Ok(url)) => match pg_url_settings(url) {
                    Err(text) => {
                        &&& res matches Resolution::Ready(Err(got))
                        &&& got@ == ConnectionDetailsErrorView::DatabaseError(text)
                    },
                    Ok(fixed) => {
                        &&& res matches Resolution::Ready(Ok(options))
                        &&& holds_fixed(
                            pg_settings(options),
                            fixed.insert("application_name"@, APPLICATION_NAME@),
                        )
                    },
                },
            },
            Connection::Details(details) => match res {
                Resolution::Pending(name) => details.resolves_to(
                    answers,
                    Resolution::Pending(name),
                ),
                Resolution::Ready(Ok(options)) => details.resolves_to(
                    answers,
                    Resolution::Ready(Ok(options)),
                ),
                Resolution::Ready(Err(ConnectionDetailsError::ValueResolution(error))) => {
                    details.resolves_to(answers, Resolution::Ready(Err(error)))
                },
                Resolution::Ready(Err(ConnectionDetailsError::DatabaseError(_))) => false,
            },
        }
    }

    /// Resolves the connection against the answers so far.
    pub fn to_pg_connect_options(&self, answers: &Vec<Fetched>) -> (res: Resolution<
        Result<PgConnectOptions, ConnectionDetailsError>,
    >)
        ensures
            self.resolves_to(answers@, res),
    {
        match self {
            Connection::Url(value) => match value.resolve(answers, 0) {
                Resolution::Pending(name) => Resolution::Pending(name),
                Resolution::Ready(Err(error)) => Resolution::Ready(
                    Err(ConnectionDetailsError::ValueResolution(error)),
                ),
                Resolution::Ready(Ok(url)) => {
                    let parsed = parse_pg_url(url.as_str());
                    proof {
                        if parsed is Ok {
                            lemma_named_fixed(
                                pg_settings(parsed->Ok_0),
                                pg_url_settings(url@)->Ok_0,
                                APPLICATION_NAME@,
                            );
                        }
                    }
                    Resolution::Ready(url_parsed(parsed))
                },
            },
            Connection::Details(details) => match details.resolve(answers) {
                Resolution::Pending(name) => Resolution::Pending(name),
                Resolution::Ready(Ok(options)) => Resolution::Ready(Ok(options)),
                Resolution::Ready(Err(error)) => Resolution::Ready(
                    Err(ConnectionDetailsError::ValueResolution(error)),
                ),
            },
        }
    }
}

/// A secret is asked for only as long as answers are missing: one for each
/// value that is kept in a secret. Literal values ask for none.
pub proof fn pending_connections_lack_answers(
    connection: Connection,
    answers: Seq<Fetched>,
    res: Resolution<Result<PgConnectOptions, ConnectionDetailsError>>,
)
    requires
        connection.resolves_to(answers, res),
    ensures
        res is Pending ==> answers.len() < connection.lookups(),
{
    if let Connection::Details(details) = connection {
        lemma_pending_in_order(details.values(), answers, 0);
    }
}

/// However a connection was described, it is opened under the name of the
/// operator.
pub proof fn connections_name_the_operator(
    connection: Connection,
    answers: Seq<Fetched>,
    options: PgConnectOptions,
)
    requires
        connection.resolves_to(answers, Resolution::Ready(Ok(options))),
    ensures
        pg_settings(options).contains_pair("application_name"@, APPLICATION_NAME@),
{
    if let Connection::Url(value) = connection {
        match value.resolution(answers, 0) {
            ResolutionView::Ready(Ok(url)) => {
                let fixed = pg_url_settings(url)->Ok_0;
                let named = fixed.insert("application_name"@, APPLICATION_NAME@);
                lemma_setting_names_differ();
                let kept = named.remove("options"@);
                assert(kept.contains_key("application_name"@));
                assert(pg_settings(options).contains_pair(
                    "application_name"@,
                    kept["application_name"@],
                ));
            },
            _ => {},
        }
    }
}

/// What a URL fixes is what the connection is opened with: the host, the port,
/// the socket, the TLS mode and every other setting that it fixes. The two
/// exceptions are the application name, which is that of the operator, and the
/// startup options, which end with those of the URL.
pub proof fn urls_keep_what_they_fix(
    value: StringValue,
    answers: Seq<Fetched>,
    url: Seq<char>,
    fixed: Map<Seq<char>, Seq<char>>,
    res: Resolution<Result<PgConnectOptions, ConnectionDetailsError>>,
)
    requires
        Connection::Url(value).resolves_to(answers, res),
        value.resolution(answers, 0) == ResolutionView::Ready(
            Ok::<Seq<char>, SecretErrorView>(url),
        ),
        pg_url_settings(url) == Ok::<Map<Seq<char>, Seq<char>>, Seq<char>>(fixed),
    ensures
        res matches Resolution::Ready(Ok(options)) && {
            let settings = pg_settings(options);
            &&& forall|name: Seq<char>|
                name != "application_name"@ && name != "options"@
                    && #[trigger] fixed.contains_key(name) ==> settings.contains_pair(
                    name,
                    fixed[name],
                )
            &&& fixed.contains_key("host"@) ==> settings.contains_pair("host"@, fixed["host"@])
            &&& fixed.contains_key("port"@) ==> settings.contains_pair("port"@, fixed["port"@])
            &&& fixed.contains_key("socket"@) ==> settings.contains_pair(
                "socket"@,
                fixed["socket"@],
            )
            &&& !fixed.contains_key("socket"@) ==> !settings.contains_key("socket"@)
            &&& fixed.contains_key("sslmode"@) ==> settings.contains_pair(
                "sslmode"@,
                fixed["sslmode"@],
            )
            &&& fixed.contains_key("options"@) ==> {
                &&& settings.contains_key("options"@)
                &&& fixed["options"@].is_suffix_of(settings["options"@])
            }
            &&& settings.contains_pair("application_name"@, APPLICATION_NAME@)
        },
{
    lemma_setting_names_differ();
    let named = fixed.insert("application_name"@, APPLICATION_NAME@);
    let kept = named.remove("options"@);
    assert(res is Ready && res->Ready_0 is Ok);
    let settings = pg_settings(res->Ready_0->Ok_0);
    assert(kept.submap_of(settings));
    assert forall|name: Seq<char>|
        name != "application_name"@ && name != "options"@ && #[trigger] fixed.contains_key(
            name,
        ) implies settings.contains_pair(name, fixed[name]) by {
        assert(kept.contains_key(name));
        assert(kept[name] == fixed[name]);
    }
    assert(kept.contains_key("application_name"@));
    assert(settings.contains_pair("application_name"@, kept["application_name"@]));
}

/// Details that are all literal are resolved at once, to options that hold
/// them; the database is `postgres` unless one is given.
pub proof fn literal_details_are_kept(
    details: ConnectionDetails,
    answers: Seq<Fetched>,
    res: Resolution<Result<PgConnectOptions, ConnectionDetailsError>>,
)
    requires
        Connection::Details(details).resolves_to(answers, res),
        details.host is Value,
        details.user is Value,
        details.password is Value,
        details.dbname matches Some(dbname) ==> dbname is Value,
    ensures
        res matches Resolution::Ready(Ok(options)) && has_settings(
            options,
            details.host->Value_0@,
            details.user->Value_0@,
            details.password->Value_0@,
            match details.dbname {
                Some(dbname) => dbname->Value_0@,
                None => "postgres"@,
            },
        ),
{
    details.lemma_texts(answers);
}

} // verus!
