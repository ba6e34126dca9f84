//! Account data of the SDK server: configuration, request bodies, stored
//! accounts and counters, and the login data sent to the client.
use crate::crypto::{decrypt_password, password_plaintext, RsaKey};
use crate::text::{ascii_chars, ascii_string};
use rand::distributions::Alphanumeric;
use rand::rngs::ThreadRng;
use rand::{thread_rng, Rng};
use vstd::prelude::*;
use vstd::utf8::encode_utf8;

verus! {

pub struct Database {
    pub mongo_uri: String,
}

pub struct Server {
    pub host: String,
    pub port: u16,
}

pub struct Options {
    pub database: Database,
    pub server: Server,
}

impl Default for Database {
    fn default() -> (r: Self)
        ensures
            r.mongo_uri@ == Seq::<char>::empty(),
    {
        Database { mongo_uri: String::new() }
    }
}

impl Default for Server {
    fn default() -> (r: Self)
        ensures
            r.host@ == Seq::<char>::empty(),
            r.port == 0,
    {
        Server { host: String::new(), port: 0 }
    }
}

impl Default for Options {
    fn default() -> (r: Self)
        ensures
            r.database.mongo_uri@ == Seq::<char>::empty(),
            r.server.host@ == Seq::<char>::empty(),
            r.server.port == 0,
    {
        Options { database: Database::default(), server: Server::default() }
    }
}

pub struct AccountLogin {
    pub account: String,
    pub password: String,
    pub is_crypto: bool,
}

pub struct AccountCreate {
    pub email: String,
    pub account: String,
    pub password: String,
}

pub struct LoginData {
    pub account: AccountData,
    pub device_grant_required: bool,
    pub realname_operation: String,
    pub realperson_required: bool,
    pub safe_mobile_required: bool,
}

pub struct AccountData {
    pub uid: Option<String>,
    pub name: String,
    pub email: String,
    pub mobile: String,
    pub is_email_verify: String,
    pub real_name: String,
    pub identity_card: String,
    pub token: Option<String>,
    pub safe_mobile: String,
    pub facebook_name: String,
    pub twitter_name: String,
    pub game_center_name: String,
    pub google_name: String,
    pub apple_name: String,
    pub sony_name: String,
    pub tap_name: String,
    pub country: String,
    pub reactivate_ticket: String,
    pub area_code: String,
    pub device_grant_ticket: String,
}

/// The account data that a new login starts from: no uid or token, empty email,
/// and the rest as `default_account_extras` gives it.
pub open spec fn default_account_data(d: AccountData) -> bool {
    &&& d.uid is None
    &&& d.token is None
    &&& d.email@ == Seq::<char>::empty()
    &&& default_account_extras(d)
}

/// The account data apart from uid, token and email: email not verified ("0"),
/// country "US", area code "**", every other text empty.
pub open spec fn default_account_extras(d: AccountData) -> bool {
    &&& d.name@ == Seq::<char>::empty()
    &&& d.mobile@ == Seq::<char>::empty()
    &&& d.is_email_verify@ == seq!['0']
    &&& d.real_name@ == Seq::<char>::empty()
    &&& d.identity_card@ == Seq::<char>::empty()
    &&& d.safe_mobile@ == Seq::<char>::empty()
    &&& d.facebook_name@ == Seq::<char>::empty()
    &&& d.twitter_name@ == Seq::<char>::empty()
    &&& d.game_center_name@ == Seq::<char>::empty()
    &&& d.google_name@ == Seq::<char>::empty()
    &&& d.apple_name@ == Seq::<char>::empty()
    &&& d.sony_name@ == Seq::<char>::empty()
    &&& d.tap_name@ == Seq::<char>::empty()
    &&& d.country@ == seq!['U', 'S']
    &&& d.reactivate_ticket@ == Seq::<char>::empty()
    &&& d.area_code@ == seq!['*', '*']
    &&& d.device_grant_ticket@ == Seq::<char>::empty()
}

impl Default for AccountData {
    fn default() -> (r: Self)
        ensures
            default_account_data(r),
    {
        let r = AccountData {
            uid: None,
            name: String::new(),
            email: String::new(),
            mobile: String::new(),
            is_email_verify: "0".to_owned(),
            real_name: String::new(),
            identity_card: String::new(),
            token: None,
            safe_mobile: String::new(),
            facebook_name: String::new(),
            twitter_name: String::new(),
            game_center_name: String::new(),
            google_name: String::new(),
            apple_name: String::new(),
            sony_name: String::new(),
            tap_name: String::new(),
            country: "US".to_owned(),
            reactivate_ticket: String::new(),
            area_code: "**".to_owned(),
            device_grant_ticket: String::new(),
        };
        proof {
            reveal_strlit("0");
            reveal_strlit("US");
            reveal_strlit("**");
            assert("0"@ =~= seq!['0']);
            assert("US"@ =~= seq!['U', 'S']);
            assert("**"@ =~= seq!['*', '*']);
        }
        r
    }
}

/// The login data that a new login starts from: the default account data, no device
/// grant, real-person or safe-mobile requirement, and real-name operation "NONE".
pub open spec fn default_login_data(d: LoginData) -> bool {
    &&& default_account_data(d.account)
    &&& default_login_flags(d)
}

/// The login data apart from its account data.
pub open spec fn default_login_flags(d: LoginData) -> bool {
    &&& !d.device_grant_required
    &&& d.realname_operation@ == seq!['N', 'O', 'N', 'E']
    &&& !d.realperson_required
    &&& !d.safe_mobile_required
}

impl Default for LoginData {
    fn default() -> (r: Self)
        ensures
            default_login_data(r),
    {
        let r = LoginData {
            account: AccountData::default(),
            device_grant_required: false,
            realname_operation: "NONE".to_owned(),
            realperson_required: false,
            safe_mobile_required: false,
        };
        proof {
            reveal_strlit("NONE");
            assert("NONE"@ =~= seq!['N', 'O', 'N', 'E']);
        }
        r
    }
}

/// `data` is the login data of account `a`: its id as the uid, its login token as
/// the token, its email, and the rest as a new login starts from.
pub open spec fn login_data_of(a: Account, data: LoginData) -> bool {
    &&& data.account.uid matches Some(u) && u@ == a.id@
    &&& data.account.token matches Some(t) && t@ == a.login_token@
    &&& data.account.email@ == a.email@
    &&& default_account_extras(data.account)
    &&& default_login_flags(data)
}

pub struct Account {
    pub id: String,
    pub email: String,
    pub username: String,
    // Passwords are currently un-used by Grasscutter.
    pub password: String,
    pub login_token: String,  // The login token is used for account authentication.
    pub session_token: String,  // The session token is used for game authentication.
}

impl Account {
    /// Creates a login data object from the account.
    /// This is used to send account information to the client.
    pub fn login_data(&self) -> (data: LoginData)
        ensures
            login_data_of(*self, data),
    {
        let mut data = LoginData::default();
        data.account.uid = Some(self.id.clone());
        data.account.token = Some(self.login_token.clone());
        data.account.email = self.email.clone();
        data
    }
}

pub struct Counter {
    pub id: String,
    pub count: i32,
}

impl Counter {
    /// The decision of `next_id`, which gets and increments the next ID: given the
    /// counter named `counter_name` as found in the database (if any), the counter to
    /// store and the id to hand out. A missing counter hands out `default` and is
    /// created holding `default + 1`; an existing one hands out its count and is
    /// stored incremented. Either way the stored counter holds the id after the one
    /// handed out, so no id is handed out twice.
    pub fn next_id_step(found: Option<Counter>, counter_name: &str, default: i32) -> (r: (
        Counter,
        i32,
    ))
        requires
            found matches Some(c) ==> c.count < i32::MAX,
            found is None ==> default < i32::MAX,
        ensures
            match found {
                None => r.0.id@ == counter_name@ && r.1 == default,
                Some(c) => r.0.id@ == c.id@ && r.1 == c.count,
            },
            r.0.count == r.1 + 1,
    {
        match found {
            None => {
                let counter = Counter { id: counter_name.to_owned(), count: default + 1 };
                (counter, default)
            },
            Some(counter) => {
                let mut counter = counter;
                let prev_count = counter.count;
                counter.count = counter.count + 1;
                (counter, prev_count)
            },
        }
    }
}

/// How the login route finds the account that a login names: by email where the
/// name holds an `@`, else by username.
pub fn lookup_by_email(account: &str) -> (r: bool)
    ensures
        r == encode_utf8(account@).contains(64u8),
{
    let bytes = account.as_bytes();
    let mut i: usize = 0;
    while i < bytes.len()
        invariant
            i <= bytes@.len(),
            bytes@ == encode_utf8(account@),
            forall|k: int| 0 <= k < i ==> bytes@[k] != 64u8,
        decreases bytes@.len() - i,
    {
        if bytes[i] == 64u8 {
            assert(bytes@[i as int] == 64u8);
            return true;
        }
        i = i + 1;
    }
    false
}

/// The password that a login is checked with: the text as sent, or, where the client
/// encrypted it, the decrypted text (`None` where it does not decrypt).
pub fn login_password(login: &AccountLogin, key: &RsaKey) -> (r: Option<String>)
    ensures
        !login.is_crypto ==> (r matches Some(p) && p@ == login.password@),
        login.is_crypto ==> match password_plaintext(login.password@, key.pem()) {
            None => r is None,
            Some(t) => r matches Some(p) && p@ == t,
        },
{
    if login.is_crypto {
        decrypt_password(login.password.clone(), key)
    } else {
        Some(login.password.clone())
    }
}

/// The reply of the login route: its return code and message, and the login data
/// where the login succeeds.
pub struct SessionReply {
    pub retcode: i32,
    pub message: String,
    pub data: Option<LoginData>,
}

/// The login route's answer once the account is looked up and the password checked:
/// no account is code -201 ("Game account cache information error"); a wrong
/// password is code -201 ("Incorrect or invalid password"); else code 0 ("OK")
/// with the account's login data.
pub fn session_reply(account: Option<&Account>, password_ok: bool) -> (r: SessionReply)
    ensures
        account is None ==> r.retcode == -201 && r.message@
            == "Game account cache information error"@ && r.data is None,
        account is Some && !password_ok ==> r.retcode == -201 && r.message@
            == "Incorrect or invalid password"@ && r.data is None,
        account is Some && password_ok ==> r.retcode == 0 && r.message@ == "OK"@ && (
        r.data matches Some(d) && login_data_of(*account->0, d)),
{
    match account {
        None => SessionReply {
            retcode: -201,
            message: "Game account cache information error".to_owned(),
            data: None,
        },
        Some(a) => if !password_ok {
            SessionReply {
                retcode: -201,
                message: "Incorrect or invalid password".to_owned(),
                data: None,
            }
        } else {
            SessionReply { retcode: 0, message: "OK".to_owned(), data: Some(a.login_data()) }
        },
    }
}

/// What is wrong with a request's body, before any account is looked at.
#[derive(PartialEq, Eq, Structural)]
pub enum BodyProblem {
    /// The request has no body.
    Missing,
    /// The body is not the JSON that the route reads.
    InvalidJson,
}

/// The login route's answer to a request whose body it cannot read: code -202 with
/// "No body provided." or "Invalid JSON.".
pub fn session_body_reply(problem: BodyProblem) -> (r: SessionReply)
    ensures
        r.retcode == -202,
        r.data is None,
        problem == BodyProblem::Missing ==> r.message@ == "No body provided."@,
        problem == BodyProblem::InvalidJson ==> r.message@ == "Invalid JSON."@,
{
    match problem {
        BodyProblem::Missing => SessionReply {
            retcode: -202,
            message: "No body provided.".to_owned(),
            data: None,
        },
        BodyProblem::InvalidJson => SessionReply {
            retcode: -202,
            message: "Invalid JSON.".to_owned(),
            data: None,
        },
    }
}

/// What the registration route does with a request.
#[derive(PartialEq, Eq, Structural)]
pub enum Registration {
    /// The request has no body: code -1.
    NoBody,
    /// The body is not an account to create: code -1.
    InvalidJson,
    /// An account with the username exists: code -2.
    UsernameTaken,
    /// An account with the email exists: code -3.
    EmailTaken,
    /// The account is created: code 0.
    Create,
}

/// The registration route's answer to a request whose body it cannot read.
pub fn registration_body_problem(problem: BodyProblem) -> (r: Registration)
    ensures
        problem == BodyProblem::Missing ==> r == Registration::NoBody,
        problem == BodyProblem::InvalidJson ==> r == Registration::InvalidJson,
{
    match problem {
        BodyProblem::Missing => Registration::NoBody,
        BodyProblem::InvalidJson => Registration::InvalidJson,
    }
}

/// The registration route's decision once it has looked up the username and the
/// email: the username is checked first.
pub fn registration(username_taken: bool, email_taken: bool) -> (r: Registration)
    ensures
        r == (if username_taken {
            Registration::UsernameTaken
        } else if email_taken {
            Registration::EmailTaken
        } else {
            Registration::Create
        }),
{
    if username_taken {
        Registration::UsernameTaken
    } else if email_taken {
        Registration::EmailTaken
    } else {
        Registration::Create
    }
}

impl Registration {
    /// The code and the message that the registration route answers with.
    pub fn reply(&self) -> (r: (i32, String))
        ensures
            *self == Registration::NoBody ==> r.0 == -1 && r.1@ == "No body provided."@,
            *self == Registration::InvalidJson ==> r.0 == -1 && r.1@ == "Invalid JSON."@,
            *self == Registration::UsernameTaken ==> r.0 == -2 && r.1@
                == "Account with username already exists."@,
            *self == Registration::EmailTaken ==> r.0 == -3 && r.1@
                == "Account with email already exists."@,
            *self == Registration::Create ==> r.0 == 0 && r.1@ == "Account created successfully."@,
    {
        match self {
            Registration::NoBody => (-1, "No body provided.".to_owned()),
            Registration::InvalidJson => (-1, "Invalid JSON.".to_owned()),
            Registration::UsernameTaken => (-2, "Account with username already exists.".to_owned()),
            Registration::EmailTaken => (-3, "Account with email already exists.".to_owned()),
            Registration::Create => (0, "Account created successfully.".to_owned()),
        }
    }
}

#[verifier::external_type_specification]
#[verifier::external_body]
pub struct ExThreadRng(ThreadRng);

/// `rand::thread_rng`: the thread-local random number generator.
#[verifier::external_body]
fn new_thread_rng() -> ThreadRng {
    thread_rng()
}

pub open spec fn is_ascii_alphanumeric(c: u8) -> bool {
    (48 <= c <= 57) || (65 <= c <= 90) || (97 <= c <= 122)
}

/// `Rng::sample` with `rand::distributions::Alphanumeric`: its source draws one of
/// the 62 bytes `A-Z`, `a-z`, `0-9`. Which one is left to chance.
#[verifier::external_body]
fn sample_alphanumeric(rng: &mut ThreadRng) -> (c: u8)
    ensures
        is_ascii_alphanumeric(c),
{
    rng.sample(Alphanumeric)
}

/// A random string of `length` ASCII letters and digits.
pub fn random_string(length: usize) -> (s: String)
    ensures
        s@.len() == length,
        forall|i: int| 0 <= i < length ==> is_ascii_alphanumeric(#[trigger] s@[i] as u8),
{
    let mut rng = new_thread_rng();
    let mut bytes: Vec<u8> = Vec::new();
    let mut i: usize = 0;
    while i < length
        invariant
            i <= length,
            bytes@.len() == i,
            forall|j: int| 0 <= j < i ==> is_ascii_alphanumeric(#[trigger] bytes@[j]),
        decreases length - i,
    {
        let c = sample_alphanumeric(&mut rng);
        bytes.push(c);
        i = i + 1;
    }
    let ghost b = bytes@;
    let s = ascii_string(bytes);
    assert forall|i: int| 0 <= i < length implies is_ascii_alphanumeric(#[trigger] s@[i] as u8) by {
        assert(s@[i] == b[i] as char);
    }
    s
}

} // verus!
