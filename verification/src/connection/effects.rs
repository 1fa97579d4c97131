//! What resolving a connection gives, in terms of its values and of the secrets
//! that were fetched.

use crate::connection::{
    resolved_in_order, urls_keep_what_they_fix, Connection, ConnectionDetails,
    ConnectionDetailsError, Resolution, ResolutionView, ResolveValueError, StringValue,
};
use crate::controllers::secrets::{Fetched, SecretError, SecretErrorView};
use crate::outside::{pg_settings, pg_url_settings};
use sqlx::postgres::PgConnectOptions;
use vstd::prelude::*;
use vstd::utf8::{decode_utf8, valid_utf8};

verus! {

/// A value is kept in a secret that was not fetched yet, where `used` answers
/// went to the values before it.
pub open spec fn is_missing(value: StringValue, answers: Seq<Fetched>, used: nat) -> bool {
    value is SecretRef && used >= answers.len()
}

/// The text of a value: a literal is itself, and a reference is the decoding of
/// the bytes under its own key in the secret that was fetched for it.
pub open spec fn gives(
    value: StringValue,
    answers: Seq<Fetched>,
    used: nat,
    text: Seq<char>,
) -> bool {
    match value {
        StringValue::Value(literal) => text == literal@,
        StringValue::SecretRef(reference) => {
            &&& used < answers.len()
            &&& answers[used as int] matches Ok(secret)
            &&& secret.data matches Some(data)
            &&& data@.contains_key(reference.key@)
            &&& valid_utf8(data@[reference.key@]@)
            &&& text == decode_utf8(data@[reference.key@]@)
        },
    }
}

/// Why a value has no text: its secret cannot be fetched, has no data, holds
/// nothing under the key of the reference, or no text.
pub open spec fn fails(
    value: StringValue,
    answers: Seq<Fetched>,
    used: nat,
    error: SecretError,
) -> bool {
    &&& value matches StringValue::SecretRef(reference)
    &&& used < answers.len()
    &&& match answers[used as int] {
        Err(failure) => {
            &&& error matches SecretError::Kubernetes(kept)
            &&& kept.message@ == failure.message@
            &&& kept.debug@ == failure.debug@
        },
        Ok(secret) => match secret.data {
            None => error is SecretHasNoData,
            Some(data) => if data@.contains_key(reference.key@) {
                !valid_utf8(data@[reference.key@]@) && error is InvalidBase64
            } else {
                error matches SecretError::SecretNotFound(missing) && missing@ == reference.key@
            },
        },
    }
}

/// How many answers go to the values before a position.
pub open spec fn used_before(values: Seq<StringValue>, k: int) -> nat
    decreases k,
{
    if k <= 0 {
        0
    } else {
        used_before(values, k - 1) + if values[k - 1] is SecretRef {
            1nat
        } else {
            0
        }
    }
}

/// The values before a position have these texts.
pub open spec fn give_before(
    values: Seq<StringValue>,
    answers: Seq<Fetched>,
    texts: Seq<Seq<char>>,
    k: int,
) -> bool {
    forall|j: int|
        0 <= j < k ==> gives(#[trigger] values[j], answers, used_before(values, j), texts[j])
}

/// A value that is not missing either has a text or has none.
proof fn lemma_one_value(value: StringValue, answers: Seq<Fetched>, used: nat)
    ensures
        is_missing(value, answers, used) <==> value.resolution(answers, used) is Pending,
        is_missing(value, answers, used) ==> value.resolution(answers, used)
            == ResolutionView::<Seq<char>>::Pending(value->SecretRef_0.name@),
        forall|text: Seq<char>| #[trigger]
            gives(value, answers, used, text) <==> value.resolution(answers, used)
                == ResolutionView::Ready(Ok::<Seq<char>, SecretErrorView>(text)),
        forall|error: SecretError| #[trigger]
            fails(value, answers, used, error) <==> value.resolution(answers, used)
                == ResolutionView::Ready(Err::<Seq<char>, SecretErrorView>(error@)),
{
    assert forall|error: SecretError| value.resolution(answers, used) == ResolutionView::Ready(
        Err::<Seq<char>, SecretErrorView>(error@),
    ) implies #[trigger] fails(value, answers, used, error) by {
        let reference = value->SecretRef_0;
        match answers[used as int] {
            Err(failure) => {
                assert(error@ == SecretErrorView::Kubernetes(failure@));
            },
            Ok(secret) => {},
        }
    }
}

/// Answers are counted from the first value on.
proof fn lemma_used_from_first(values: Seq<StringValue>, k: int)
    requires
        0 < k <= values.len(),
    ensures
        used_before(values, k) == values[0].lookups() + used_before(values.drop_first(), k - 1),
    decreases k,
{
    if k > 1 {
        lemma_used_from_first(values, k - 1);
        assert(values.drop_first()[k - 2] == values[k - 1]);
    } else {
        assert(used_before(values, 0) == 0);
    }
}

/// The texts of values up to a position, from the first on.
#[verifier::rlimit(30)]
proof fn lemma_in_order(
    values: Seq<StringValue>,
    answers: Seq<Fetched>,
    used: nat,
    texts: Seq<Seq<char>>,
    k: int,
)
    requires
        0 <= k <= values.len(),
        k <= texts.len(),
        forall|j: int|
            0 <= j < k ==> gives(
                #[trigger] values[j],
                answers,
                used + used_before(values, j),
                texts[j],
            ),
    ensures
        k == values.len() ==> resolved_in_order(values, answers, used) == ResolutionView::Ready(
            Ok::<Seq<Seq<char>>, SecretErrorView>(texts.take(k)),
        ),
        k < values.len() ==> match values[k].resolution(
            answers,
            used + used_before(values, k),
        ) {
            ResolutionView::Pending(name) => resolved_in_order(values, answers, used)
                == ResolutionView::<Seq<Seq<char>>>::Pending(name),
            ResolutionView::Ready(Err(error)) => resolved_in_order(values, answers, used)
                == ResolutionView::Ready(Err::<Seq<Seq<char>>, SecretErrorView>(error)),
            _ => true,
        },
    decreases values.len(),
{
    if values.len() == 0 {
        assert(texts.take(0) =~= Seq::empty());
    } else if k > 0 {
        let others = values.drop_first();
        let rest = texts.drop_first();
        let next = used + values[0].lookups();
        lemma_one_value(values[0], answers, used);
        assert(gives(values[0], answers, used + used_before(values, 0), texts[0]));
        assert forall|j: int| 0 <= j < k - 1 implies gives(
            #[trigger] others[j],
            answers,
            next + used_before(others, j),
            rest[j],
        ) by {
            lemma_used_from_first(values, j + 1);
            assert(others[j] == values[j + 1]);
            assert(rest[j] == texts[j + 1]);
            assert(gives(
                values[j + 1],
                answers,
                used + used_before(values, j + 1),
                texts[j + 1],
            ));
        }
        lemma_in_order(others, answers, next, rest, k - 1);
        lemma_used_from_first(values, k);
        if k == values.len() {
            assert(seq![texts[0]] + rest.take(k - 1) =~= texts.take(k));
        } else {
            assert(others[k - 1] == values[k]);
        }
    }
}

/// What resolving the details of a connection gives, in terms of their values:
/// they are read in the order host, user, password, database, and the first
/// that is missing or fails decides.
pub open spec fn details_give(
    details: ConnectionDetails,
    answers: Seq<Fetched>,
    res: Resolution<Result<PgConnectOptions, SecretError>>,
    texts: Seq<Seq<char>>,
    k: int,
) -> bool {
    let values = match details.dbname {
        None => seq![details.host, details.user, details.password],
        Some(dbname) => seq![details.host, details.user, details.password, dbname],
    };
    0 <= k <= values.len() && texts.len() >= k && give_before(values, answers, texts, k) ==> {
        &&& k < values.len() && is_missing(values[k], answers, used_before(values, k)) ==> {
            res matches Resolution::Pending(name) && name@ == values[k]->SecretRef_0.name@
        }
        &&& k < values.len() ==> forall|error: SecretError| #[trigger]
            fails(values[k], answers, used_before(values, k), error) ==> {
                res matches Resolution::Ready(Err(got)) && fails(
                    values[k],
                    answers,
                    used_before(values, k),
                    got,
                )
            }
        &&& k == values.len() ==> {
            &&& res matches Resolution::Ready(Ok(options))
            &&& pg_settings(options).contains_pair("host"@, texts[0])
            &&& pg_settings(options).contains_pair("username"@, texts[1])
            &&& pg_settings(options).contains_pair("password"@, texts[2])
            &&& pg_settings(options).contains_pair(
                "database"@,
                if details.dbname is Some {
                    texts[3]
                } else {
                    "postgres"@
                },
            )
            &&& pg_settings(options).contains_pair("application_name"@, "controller"@)
            &&& !pg_settings(options).contains_key("socket"@)
        }
    }
}

/// The resolution, with the error of the secret.
pub open spec fn secret_resolution(
    res: Resolution<Result<PgConnectOptions, ResolveValueError>>,
) -> Resolution<Result<PgConnectOptions, SecretError>> {
    match res {
        Resolution::Pending(name) => Resolution::Pending(name),
        Resolution::Ready(Ok(options)) => Resolution::Ready(Ok(options)),
        Resolution::Ready(Err(ResolveValueError::SecretError(error))) => Resolution::Ready(
            Err(error),
        ),
    }
}

/// What the details resolve to is what they give.
proof fn lemma_details_give(
    details: ConnectionDetails,
    answers: Seq<Fetched>,
    res: Resolution<Result<PgConnectOptions, ResolveValueError>>,
    texts: Seq<Seq<char>>,
    k: int,
)
    requires
        details.resolves_to(answers, res),
    ensures
        details_give(details, answers, secret_resolution(res), texts, k),
{
    let values = details.values();
    if 0 <= k <= values.len() && texts.len() >= k && give_before(values, answers, texts, k) {
        lemma_in_order(values, answers, 0, texts, k);
        if k < values.len() {
            lemma_one_value(values[k], answers, used_before(values, k));
        }
    }
}

/// Literal values are themselves. A reference takes the answer that is its own,
/// and asks for its secret by name as long as there is none.
pub proof fn values_are_read_as_given(
    value: StringValue,
    answers: Vec<Fetched>,
    used: usize,
    res: Resolution<Result<String, ResolveValueError>>,
)
    requires
        call_ensures(StringValue::resolve, (&value, &answers, used), res),
    ensures
        is_missing(value, answers@, used as nat) ==> {
            res matches Resolution::Pending(name) && name@ == value->SecretRef_0.name@
        },
        forall|text: Seq<char>| #[trigger]
            gives(value, answers@, used as nat, text) ==> {
                res matches Resolution::Ready(Ok(got)) && got@ == text
            },
        forall|error: SecretError| #[trigger]
            fails(value, answers@, used as nat, error) ==> {
                &&& res matches Resolution::Ready(Err(ResolveValueError::SecretError(got)))
                &&& fails(value, answers@, used as nat, got)
            },
{
    lemma_one_value(value, answers@, used as nat);
}

/// Details are opened with the texts that their values have, each in its own
/// place.
pub proof fn details_are_resolved_as_given(
    details: ConnectionDetails,
    answers: Vec<Fetched>,
    res: Resolution<Result<PgConnectOptions, ResolveValueError>>,
    texts: Seq<Seq<char>>,
    k: int,
)
    requires
        call_ensures(ConnectionDetails::resolve, (&details, &answers), res),
    ensures
        details_give(details, answers@, secret_resolution(res), texts, k),
{
    lemma_details_give(details, answers@, res, texts, k);
}

/// The resolution of details, with the error of the secret.
pub open spec fn of_details(
    res: Resolution<Result<PgConnectOptions, ConnectionDetailsError>>,
) -> Resolution<Result<PgConnectOptions, SecretError>> {
    match res {
        Resolution::Pending(name) => Resolution::Pending(name),
        Resolution::Ready(Ok(options)) => Resolution::Ready(Ok(options)),
        Resolution::Ready(Err(error)) => Resolution::Ready(
            Err(error->ValueResolution_0->SecretError_0),
        ),
    }
}

/// What resolving a connection gives, in terms of its values.
pub open spec fn connection_gives(
    connection: Connection,
    answers: Seq<Fetched>,
    res: Resolution<Result<PgConnectOptions, ConnectionDetailsError>>,
) -> bool {
    match connection {
        Connection::Url(value) => {
            &&& is_missing(value, answers, 0) ==> {
                res matches Resolution::Pending(name) && name@ == value->SecretRef_0.name@
            }
            &&& forall|error: SecretError| #[trigger]
                fails(value, answers, 0, error) ==> {
                    &&& res matches Resolution::Ready(
                        Err(
                            ConnectionDetailsError::ValueResolution(
                                ResolveValueError::SecretError(got),
                            ),
                        ),
                    )
                    &&& fails(value, answers, 0, got)
                }
            &&& forall|url: Seq<char>| #[trigger]
                gives(value, answers, 0, url) ==> match pg_url_settings(url) {
                    Err(text) => {
                        &&& res matches Resolution::Ready(
                            Err(ConnectionDetailsError::DatabaseError(got)),
                        )
                        &&& got@ == text
                    },
                    Ok(fixed) => {
                        &&& res matches Resolution::Ready(Ok(options))
                        &&& pg_settings(options).contains_pair(
                            "application_name"@,
                            "controller"@,
                        )
                        &&& forall|name: Seq<char>|
                            name != "application_name"@ && name != "options"@
                                && #[trigger] fixed.contains_key(name) ==> pg_settings(
                                options,
                            ).contains_pair(name, fixed[name])
                        &&& !fixed.contains_key("socket"@) ==> !pg_settings(
                            options,
                        ).contains_key("socket"@)
                        &&& fixed.contains_key("options"@) ==> fixed["options"@].is_suffix_of(
                            pg_settings(options)["options"@],
                        )
                    },
                }
        },
        Connection::Details(details) => {
            &&& !(res matches Resolution::Ready(Err(ConnectionDetailsError::DatabaseError(_))))
            &&& forall|texts: Seq<Seq<char>>, k: int| #[trigger]
                details_give(details, answers, of_details(res), texts, k)
        },
    }
}

/// What a connection resolves to is what its values give.
pub proof fn lemma_connection_gives(
    connection: Connection,
    answers: Seq<Fetched>,
    res: Resolution<Result<PgConnectOptions, ConnectionDetailsError>>,
)
    requires
        connection.resolves_to(answers, res),
    ensures
        connection_gives(connection, answers, res),
{
    match connection {
        Connection::Url(value) => {
            lemma_one_value(value, answers, 0);
            assert forall|url: Seq<char>| #[trigger] gives(value, answers, 0, url) implies match pg_url_settings(
                url,
            ) {
                Err(text) => {
                    &&& res matches Resolution::Ready(
                        Err(ConnectionDetailsError::DatabaseError(got)),
                    )
                    &&& got@ == text
                },
                Ok(fixed) => {
                    &&& res matches Resolution::Ready(Ok(options))
                    &&& pg_settings(options).contains_pair("application_name"@, "controller"@)
                    &&& forall|name: Seq<char>|
                        name != "application_name"@ && name != "options"@
                            && #[trigger] fixed.contains_key(name) ==> pg_settings(
                            options,
                        ).contains_pair(name, fixed[name])
                    &&& !fixed.contains_key("socket"@) ==> !pg_settings(options).contains_key(
                        "socket"@,
                    )
                    &&& fixed.contains_key("options"@) ==> fixed["options"@].is_suffix_of(
                        pg_settings(options)["options"@],
                    )
                },
            } by {
                if let Ok(fixed) = pg_url_settings(url) {
                    urls_keep_what_they_fix(value, answers, url, fixed, res);
                }
            }
        },
        Connection::Details(details) => {
            let inner = of_details(res);
            let own = match res {
                Resolution::Pending(name) => Resolution::Pending(name),
                Resolution::Ready(Ok(options)) => Resolution::Ready(Ok(options)),
                Resolution::Ready(Err(error)) => Resolution::Ready(
                    Err(error->ValueResolution_0),
                ),
            };
            assert(details.resolves_to(answers, own));
            assert(secret_resolution(own) == inner);
            assert forall|texts: Seq<Seq<char>>, k: int| #[trigger]
                details_give(details, answers, of_details(res), texts, k) by {
                lemma_details_give(details, answers, own, texts, k);
            }
        },
    }
}

/// A connection is opened with what it says: a URL with everything that it
/// fixes, and details with their texts, each in its own place.
pub proof fn connections_are_resolved_as_given(
    connection: Connection,
    answers: Vec<Fetched>,
    res: Resolution<Result<PgConnectOptions, ConnectionDetailsError>>,
)
    requires
        call_ensures(Connection::to_pg_connect_options, (&connection, &answers), res),
    ensures
        connection_gives(connection, answers@, res),
{
    lemma_connection_gives(connection, answers@, res);
}

/// The errors of a connection are told word for word.
pub proof fn connection_errors_are_told(
    error: ConnectionDetailsError,
    text: String,
    held: SecretError,
    held_text: String,
)
    requires
        call_ensures(ConnectionDetailsError::to_string, (&error,), text),
        call_ensures(SecretError::to_string, (&held,), held_text),
    ensures
        error matches ConnectionDetailsError::DatabaseError(given) ==> text@ == given@,
        error == ConnectionDetailsError::ValueResolution(ResolveValueError::SecretError(held))
            ==> text@ == held_text@,
{
}

} // verus!
