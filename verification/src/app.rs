//! The settings window: account setup and browsing of calendars and events.
//!
//! The window's state changes in answer to messages; what has to reach the
//! outside world (a request, the keyring, the configuration file) comes back
//! as a command for the caller to carry out.

use vstd::prelude::*;
use vstd::view::View as _;
use crate::caldav::{
    CalDavClient, Calendar, CalendarEvent, CalendarView, EventView, calendar_views, event_views,
    trim_end_char,
};
use crate::config::{
    Account, AccountView, Config, account_display_name, account_id, account_id_for,
    display_name_for, first_with_id, without_id, zeroize_string,
};
use crate::order::{
    lemma_sort_by_map, lemma_sort_by_sorts, ordered_by, sort_by, sort_by_start, sort_by_start_time,
    start_of,
};
use crate::applet::event_times_ok;
use crate::text::{chars_of, push_chars, push_str_chars, slice_chars, str_eq, string_of};
use crate::time::{
    Stamp, clock_string, clock_text, local_from_utc, month_abbrev,
    month_abbrev_text, push_two_digits, push_year, stamp_valid, two_digits, weekday_abbrev,
    weekday_abbrev_text, weekday_from_sunday, weekday_number, within_a_day, year_text,
};

verus! {

// ----------------------------------------------------------------------------
// Providers
// ----------------------------------------------------------------------------

/// The kinds of CalDAV service the account form knows.
#[derive(Clone, Copy, Debug, PartialEq, Eq, Structural)]
pub enum Provider {
    Nextcloud,
    Google,
    Outlook,
}

/// The help shown for a provider.
pub open spec fn provider_help(p: Provider) -> Seq<char> {
    match p {
        Provider::Google => "Google requires an App Password for CalDAV — your regular Google password will not work here. Create an App Password at myaccount.google.com/apppasswords and use your Gmail address as username. The CalDAV URL is auto-filled."@,
        Provider::Outlook => "Enter your Microsoft 365 email as username and your regular password. If you have 2FA enabled, use an App Password from account.microsoft.com/security. The CalDAV URL is auto-filled."@,
        Provider::Nextcloud => "Enter your Nextcloud URL, username and password to sync. Your login details are stored locally. For extra security, use an App Password instead (Settings -> Security -> App passwords)."@,
    }
}

/// The example URL shown in the empty URL field.
pub open spec fn provider_placeholder(p: Provider) -> Seq<char> {
    match p {
        Provider::Google => "https://www.google.com/calendar/dav/you@gmail.com/events/"@,
        Provider::Outlook => "https://outlook.office365.com/"@,
        Provider::Nextcloud => "https://cloud.example.com"@,
    }
}

/// The CalDAV URL a provider fills in for a user name: Google's events
/// collection of the user, Outlook's fixed server, nothing for Nextcloud.
pub open spec fn provider_default_url(p: Provider, username: Seq<char>) -> Option<Seq<char>> {
    match p {
        Provider::Google => Some(
            "https://www.google.com/calendar/dav/"@ + username + "/events/"@,
        ),
        Provider::Outlook => Some("https://outlook.office365.com/"@),
        Provider::Nextcloud => None,
    }
}

impl Provider {
    /// The help shown for the provider.
    pub fn help_text(self) -> (r: &'static str)
        ensures
            r@ == provider_help(self),
    {
        match self {
            Provider::Google => "Google requires an App Password for CalDAV — your regular Google password will not work here. Create an App Password at myaccount.google.com/apppasswords and use your Gmail address as username. The CalDAV URL is auto-filled.",
            Provider::Outlook => "Enter your Microsoft 365 email as username and your regular password. If you have 2FA enabled, use an App Password from account.microsoft.com/security. The CalDAV URL is auto-filled.",
            Provider::Nextcloud => "Enter your Nextcloud URL, username and password to sync. Your login details are stored locally. For extra security, use an App Password instead (Settings -> Security -> App passwords).",
        }
    }

    /// The example URL shown in the empty URL field.
    pub fn url_placeholder(self) -> (r: &'static str)
        ensures
            r@ == provider_placeholder(self),
    {
        match self {
            Provider::Google => "https://www.google.com/calendar/dav/you@gmail.com/events/",
            Provider::Outlook => "https://outlook.office365.com/",
            Provider::Nextcloud => "https://cloud.example.com",
        }
    }

    /// The CalDAV URL the provider fills in for `username`.
    pub fn default_url(self, username: &str) -> (r: Option<String>)
        ensures
            r.deep_view() == provider_default_url(self, username@),
    {
        match self {
            Provider::Google => {
                let mut v: Vec<char> = Vec::new();
                push_str_chars(&mut v, "https://www.google.com/calendar/dav/");
                push_str_chars(&mut v, username);
                push_str_chars(&mut v, "/events/");
                Some(string_of(v.as_slice()))
            },
            Provider::Outlook => Some("https://outlook.office365.com/".to_owned()),
            Provider::Nextcloud => None,
        }
    }
}

// ----------------------------------------------------------------------------
// The account form
// ----------------------------------------------------------------------------

/// The add-account form.
#[derive(Clone, Debug)]
pub struct AccountForm {
    pub provider: Provider,
    pub url: String,
    pub username: String,
    pub password: String,
}

/// What the form holds, as text.
pub struct FormView {
    pub provider: Provider,
    pub url: Seq<char>,
    pub username: Seq<char>,
    pub password: Seq<char>,
}

impl vstd::view::View for AccountForm {
    type V = FormView;

    open spec fn view(&self) -> FormView {
        FormView {
            provider: self.provider,
            url: self.url@,
            username: self.username@,
            password: self.password@,
        }
    }
}

/// An empty form for a Nextcloud account.
pub open spec fn empty_form() -> FormView {
    FormView {
        provider: Provider::Nextcloud,
        url: Seq::empty(),
        username: Seq::empty(),
        password: Seq::empty(),
    }
}

/// The form after choosing a provider: the URL becomes the provider's URL
/// for the current user name, or empty when it has none.
pub open spec fn form_with_provider(f: FormView, p: Provider) -> FormView {
    FormView {
        provider: p,
        url: match provider_default_url(p, f.username) {
            Some(u) => u,
            None => Seq::empty(),
        },
        ..f
    }
}

/// The form after typing a user name: a provider with a fixed URL pattern
/// follows it; otherwise the URL is left as typed.
pub open spec fn form_with_username(f: FormView, username: Seq<char>) -> FormView {
    FormView {
        username,
        url: match provider_default_url(f.provider, username) {
            Some(u) => u,
            None => f.url,
        },
        ..f
    }
}

/// Every field of the form is filled in.
pub open spec fn form_complete(f: FormView) -> bool {
    f.url.len() > 0 && f.username.len() > 0 && f.password.len() > 0
}

impl Default for AccountForm {
    fn default() -> (r: Self)
        ensures
            r@ == empty_form(),
    {
        AccountForm {
            provider: Provider::Nextcloud,
            url: String::new(),
            username: String::new(),
            password: String::new(),
        }
    }
}

impl AccountForm {
    /// Clears the form (wiping the password) and selects Nextcloud.
    pub fn reset(&mut self)
        ensures
            final(self)@ == empty_form(),
    {
        self.provider = Provider::Nextcloud;
        self.url = String::new();
        self.username = String::new();
        zeroize_string(&mut self.password);
    }

    /// Selects a provider, filling in its URL (or clearing the URL).
    pub fn select_provider(&mut self, provider: Provider)
        ensures
            final(self)@ == form_with_provider(old(self)@, provider),
    {
        self.provider = provider;
        match provider.default_url(self.username.as_str()) {
            Some(url) => self.url = url,
            None => self.url = String::new(),
        }
    }

    /// Sets the user name, keeping a provider-filled URL in step with it.
    pub fn set_username(&mut self, username: String)
        ensures
            final(self)@ == form_with_username(old(self)@, username@),
    {
        self.username = username;
        match self.provider.default_url(self.username.as_str()) {
            Some(url) => self.url = url,
            None => {},
        }
    }

    /// Whether URL, user name and password are all filled in.
    pub fn is_complete(&self) -> (r: bool)
        ensures
            r == form_complete(self@),
    {
        !self.url.as_str().is_empty() && !self.username.as_str().is_empty()
            && !self.password.as_str().is_empty()
    }

    /// A client for the account the form describes.
    pub fn into_client(&self) -> (r: CalDavClient)
        ensures
            r.base() == trim_end_char(self.url@, '/'),
            r.user() == self.username@,
            r.secret() == self.password@,
    {
        CalDavClient::new(self.url.clone(), self.username.clone(), self.password.clone())
    }
}

// ----------------------------------------------------------------------------
// The window
// ----------------------------------------------------------------------------

/// The page the settings window shows.
#[derive(Clone, Debug)]
pub enum View {
    Accounts,
    AddAccount,
    Calendars { account_id: String },
    Events { account_id: String, calendar_href: String },
}

/// What a page is, as text.
pub enum PageView {
    Accounts,
    AddAccount,
    Calendars(Seq<char>),
    Events(Seq<char>, Seq<char>),
}

impl vstd::view::View for View {
    type V = PageView;

    open spec fn view(&self) -> PageView {
        match self {
            View::Accounts => PageView::Accounts,
            View::AddAccount => PageView::AddAccount,
            View::Calendars { account_id } => PageView::Calendars(account_id@),
            View::Events { account_id, calendar_href } => PageView::Events(
                account_id@,
                calendar_href@,
            ),
        }
    }
}

/// What the window does in answer to a message.
#[derive(Debug)]
pub enum Message {
    ViewAccounts,
    ViewAddAccount,
    ProviderSelected(Provider),
    ViewCalendars { account_id: String },
    ViewEvents { account_id: String, calendar_href: String },
    UrlChanged(String),
    UsernameChanged(String),
    PasswordChanged(String),
    TestConnection,
    SaveAccount,
    DeleteAccount(String),
    ConnectionTestFinished(Result<(), String>),
    AccountSaveVerified(Result<(), String>),
    /// The keyring stored (or failed to store) the password of `account`.
    AccountStored { account: Account, result: Result<(), String> },
    CalendarsLoaded { account_id: String, result: Result<Vec<Calendar>, String> },
    EventsLoaded {
        account_id: String,
        calendar_href: String,
        result: Result<Vec<CalendarEvent>, String>,
    },
}

/// A copy of a result whose error is text: the same variant, holding a
/// clone of the value or the same error text.
pub(crate) fn clone_result<T: Clone>(r: &Result<T, String>) -> (res: Result<T, String>)
    ensures
        match (*r, res) {
            (Ok(a), Ok(b)) => cloned::<T>(a, b),
            (Err(e), Err(f)) => f == e,
            _ => false,
        },
{
    match r {
        Ok(v) => Ok(v.clone()),
        Err(e) => Err(e.clone()),
    }
}

impl Clone for Message {
    fn clone(&self) -> Self {
        match self {
            Message::ViewAccounts => Message::ViewAccounts,
            Message::ViewAddAccount => Message::ViewAddAccount,
            Message::ProviderSelected(p) => Message::ProviderSelected(*p),
            Message::ViewCalendars { account_id } => Message::ViewCalendars { account_id: account_id.clone() },
            Message::ViewEvents { account_id, calendar_href } => Message::ViewEvents {
                account_id: account_id.clone(),
                calendar_href: calendar_href.clone(),
            },
            Message::UrlChanged(v) => Message::UrlChanged(v.clone()),
            Message::UsernameChanged(v) => Message::UsernameChanged(v.clone()),
            Message::PasswordChanged(v) => Message::PasswordChanged(v.clone()),
            Message::TestConnection => Message::TestConnection,
            Message::SaveAccount => Message::SaveAccount,
            Message::DeleteAccount(id) => Message::DeleteAccount(id.clone()),
            Message::ConnectionTestFinished(r) => Message::ConnectionTestFinished(clone_result(r)),
            Message::AccountSaveVerified(r) => Message::AccountSaveVerified(clone_result(r)),
            Message::AccountStored { account, result } => Message::AccountStored {
                account: account.clone(),
                result: clone_result(result),
            },
            Message::CalendarsLoaded { account_id, result } => Message::CalendarsLoaded {
                account_id: account_id.clone(),
                result: clone_result(result),
            },
            Message::EventsLoaded { account_id, calendar_href, result } => Message::EventsLoaded {
                account_id: account_id.clone(),
                calendar_href: calendar_href.clone(),
                result: clone_result(result),
            },
        }
    }
}

/// What the caller has to carry out after a message.
pub enum AppCommand {
    Nothing,
    /// List the calendars of an account; answer with `CalendarsLoaded`.
    FetchCalendars { account_id: String, client: CalDavClient },
    /// Load the events of a calendar; answer with `EventsLoaded`.
    FetchEvents { account_id: String, calendar_href: String, client: CalDavClient },
    /// Test the connection; answer with `ConnectionTestFinished`.
    TestConnection { client: CalDavClient },
    /// Test the connection before saving; answer with `AccountSaveVerified`.
    VerifyAccount { client: CalDavClient },
    /// Store the account's password in the keyring; answer with `AccountStored`.
    StoreAccount { account: Account },
    /// Delete the account's password from the keyring and save the configuration.
    ForgetAccount { id: String },
    /// Save the configuration file.
    SaveConfig,
}

/// The settings window's state.
pub struct App {
    pub config: Config,
    pub view: View,
    pub form: AccountForm,
    pub status_message: Option<String>,
    pub is_loading: bool,
    pub calendars: Vec<Calendar>,
    pub events: Vec<CalendarEvent>,
    pub current_calendar_name: String,
}

/// What the window's state is, as text.
pub struct AppModel {
    pub accounts: Seq<AccountView>,
    pub page: PageView,
    pub form: FormView,
    pub status: Option<Seq<char>>,
    pub is_loading: bool,
    pub calendars: Seq<CalendarView>,
    pub events: Seq<EventView>,
    pub current_calendar_name: Seq<char>,
}

impl vstd::view::View for App {
    type V = AppModel;

    open spec fn view(&self) -> AppModel {
        AppModel {
            accounts: self.config@,
            page: self.view@,
            form: self.form@,
            status: self.status_message.deep_view(),
            is_loading: self.is_loading,
            calendars: calendar_views(self.calendars@),
            events: event_views(self.events@),
            current_calendar_name: self.current_calendar_name@,
        }
    }
}

/// A client made for an account.
pub open spec fn client_for(c: CalDavClient, a: AccountView) -> bool {
    c.base() == trim_end_char(a.url, '/') && c.user() == a.username && c.secret() == a.password
}

/// A client made from the form.
pub open spec fn client_from_form(c: CalDavClient, f: FormView) -> bool {
    c.base() == trim_end_char(f.url, '/') && c.user() == f.username && c.secret() == f.password
}

/// The account the form describes.
pub open spec fn account_from_form(f: FormView) -> AccountView {
    AccountView {
        id: account_id(f.url, f.username),
        display_name: account_display_name(f.url, f.username),
        url: f.url,
        username: f.username,
        password: f.password,
    }
}

/// The account with identifier `id`, if any.
pub open spec fn find_account(accounts: Seq<AccountView>, id: Seq<char>) -> Option<AccountView> {
    match first_with_id(accounts, id) {
        Some(i) => Some(accounts[i]),
        None => None,
    }
}

/// The name of the first calendar with href `href`, or `Events`.
pub open spec fn calendar_title(calendars: Seq<CalendarView>, href: Seq<char>) -> Seq<char> {
    if exists|i: int| 0 <= i < calendars.len() && calendars[i].href == href {
        calendars[choose|i: int|
            0 <= i < calendars.len() && calendars[i].href == href && forall|j: int|
                0 <= j < i ==> calendars[j].href != href].display_name
    } else {
        "Events"@
    }
}

/// A status line reporting a failure.
pub open spec fn failure_status(e: Seq<char>) -> Seq<char> {
    "✗ "@ + e
}

/// A status line reporting a load error.
pub open spec fn error_status(e: Seq<char>) -> Seq<char> {
    "Error: "@ + e
}

fn prefixed(prefix: &str, e: &String) -> (r: String)
    ensures
        r@ == prefix@ + e@,
{
    let mut v: Vec<char> = Vec::new();
    push_str_chars(&mut v, prefix);
    push_str_chars(&mut v, e.as_str());
    string_of(v.as_slice())
}

proof fn lemma_calendar_title(calendars: Seq<CalendarView>, href: Seq<char>, i: int)
    requires
        0 <= i < calendars.len(),
        calendars[i].href == href,
        forall|j: int| 0 <= j < i ==> #[trigger] calendars[j].href != href,
    ensures
        calendar_title(calendars, href) == calendars[i].display_name,
{
    let k = choose|k: int|
        0 <= k < calendars.len() && calendars[k].href == href && forall|j: int|
            0 <= j < k ==> calendars[j].href != href;
    if k < i {
        assert(calendars[k].href != href);
    } else if k > i {
        assert(calendars[i].href != href);
    }
}

/// Opening the calendar list of `id`: the list is emptied and, when the
/// account exists, its calendars are asked for; otherwise the missing account
/// is reported.
pub open spec fn after_calendar_load(o: AppModel, n: AppModel, id: Seq<char>, cmd: AppCommand) -> bool {
    &&& n.page == PageView::Calendars(id)
    &&& n.calendars == Seq::<CalendarView>::empty()
    &&& n.accounts == o.accounts
    &&& n.form == o.form
    &&& n.events == o.events
    &&& n.current_calendar_name == o.current_calendar_name
    &&& match find_account(o.accounts, id) {
        Some(a) => n.is_loading && n.status is None && (
        cmd matches AppCommand::FetchCalendars { account_id, client } && account_id@ == id
            && client_for(client, a)),
        None => !n.is_loading && n.status == Some("Account not found"@) && cmd is Nothing,
    }
}

/// Opening the event list of calendar `href` of account `id`: the title is
/// taken from the calendar list, the list is emptied and, when the account
/// exists, its events are asked for; otherwise the missing account is
/// reported.
pub open spec fn after_event_load(
    o: AppModel,
    n: AppModel,
    id: Seq<char>,
    href: Seq<char>,
    cmd: AppCommand,
) -> bool {
    &&& n.page == PageView::Events(id, href)
    &&& n.current_calendar_name == calendar_title(o.calendars, href)
    &&& n.events == Seq::<EventView>::empty()
    &&& n.accounts == o.accounts
    &&& n.form == o.form
    &&& n.calendars == o.calendars
    &&& match find_account(o.accounts, id) {
        Some(a) => n.is_loading && n.status is None && (
        cmd matches AppCommand::FetchEvents { account_id, calendar_href, client }
            && account_id@ == id && calendar_href@ == href && client_for(client, a)),
        None => !n.is_loading && n.status == Some("Account not found"@) && cmd is Nothing,
    }
}

/// Saving the form: an incomplete form is refused, a complete one is first
/// verified with a connection test.
pub open spec fn after_account_save(o: AppModel, n: AppModel, cmd: AppCommand) -> bool {
    if !form_complete(o.form) {
        n == (AppModel { status: Some("Please fill in all fields"@), ..o }) && cmd is Nothing
    } else {
        n == (AppModel { is_loading: true, status: Some("Verifying..."@), ..o }) && (
        cmd matches AppCommand::VerifyAccount { client } && client_from_form(client, o.form))
    }
}

/// The view of a unit result.
pub open spec fn unit_view(r: Result<(), String>) -> Result<(), Seq<char>> {
    match r {
        Ok(()) => Ok(()),
        Err(e) => Err(e@),
    }
}

/// The outcome of the connection test before saving: on success the
/// account's password goes to the keyring, a failure is reported.
pub open spec fn after_save_verified(
    o: AppModel,
    n: AppModel,
    result: Result<(), Seq<char>>,
    cmd: AppCommand,
) -> bool {
    match result {
        Ok(()) => n == (AppModel { is_loading: false, ..o }) && (
        cmd matches AppCommand::StoreAccount { account } && account@ == account_from_form(o.form)),
        Err(e) => n == (AppModel { is_loading: false, status: Some(failure_status(e)), ..o })
            && cmd is Nothing,
    }
}

/// The keyring's answer: on success the account joins the configuration
/// (replacing one with the same identifier), the form's password is wiped,
/// the account list is shown and the file is to be saved; a failure is
/// reported and nothing is added.
pub open spec fn after_account_stored(
    o: AppModel,
    n: AppModel,
    account: AccountView,
    result: Result<(), Seq<char>>,
    cmd: AppCommand,
) -> bool {
    match result {
        Ok(()) => n == (AppModel {
            accounts: without_id(o.accounts, account.id).push(account),
            form: FormView { password: Seq::empty(), ..o.form },
            page: PageView::Accounts,
            status: None,
            ..o
        }) && cmd is SaveConfig,
        Err(e) => n == (AppModel { status: Some(failure_status(e)), ..o }) && cmd is Nothing,
    }
}

/// Loaded calendars are shown only on the calendar page of their account.
pub open spec fn after_calendars_loaded(
    o: AppModel,
    n: AppModel,
    id: Seq<char>,
    result: Result<Vec<Calendar>, String>,
) -> bool {
    if o.page != PageView::Calendars(id) {
        n == (AppModel { is_loading: false, ..o })
    } else {
        n == match result {
            Ok(cals) => AppModel {
                is_loading: false,
                calendars: calendar_views(cals@),
                status: None,
                ..o
            },
            Err(e) => AppModel {
                is_loading: false,
                calendars: Seq::empty(),
                status: Some(error_status(e@)),
                ..o
            },
        }
    }
}

/// Loaded events are shown, ordered by start, only on the event page of
/// their calendar.
pub open spec fn after_events_loaded(
    o: AppModel,
    n: AppModel,
    id: Seq<char>,
    href: Seq<char>,
    result: Result<Vec<CalendarEvent>, String>,
) -> bool {
    if o.page != PageView::Events(id, href) {
        n == (AppModel { is_loading: false, ..o })
    } else {
        n == match result {
            Ok(evs) => AppModel {
                is_loading: false,
                events: event_views(sort_by_start(evs@)),
                status: None,
                ..o
            },
            Err(e) => AppModel {
                is_loading: false,
                events: Seq::empty(),
                status: Some(error_status(e@)),
                ..o
            },
        }
    }
}

/// Loaded events are shown in start order (events without a start first),
/// each of them once.
pub proof fn lemma_loaded_events_ordered(evs: Seq<CalendarEvent>)
    ensures
        ordered_by(event_views(sort_by_start(evs)), |e: EventView| e.start),
        event_views(sort_by_start(evs)).to_multiset() == event_views(evs).to_multiset(),
{
    let f = |e: CalendarEvent| e@;
    let kb = |e: EventView| e.start;
    assert forall|x: CalendarEvent| #[trigger] kb(f(x)) == start_of::<CalendarEvent>()(x) by {}
    lemma_sort_by_map(evs, f, start_of::<CalendarEvent>(), kb);
    assert(event_views(sort_by_start(evs)) =~= sort_by(evs, start_of::<CalendarEvent>()).map_values(f));
    assert(evs.map_values(f) =~= event_views(evs));
    lemma_sort_by_sorts(event_views(evs), kb);
}

/// The name of the first calendar with href `href`, or `Events`.
fn calendar_title_of(calendars: &Vec<Calendar>, href: &str) -> (r: String)
    ensures
        r@ == calendar_title(calendar_views(calendars@), href@),
{
    let mut i: usize = 0;
    while i < calendars.len()
        invariant
            i <= calendars@.len(),
            forall|j: int| 0 <= j < i ==> #[trigger] calendar_views(calendars@)[j].href != href@,
        decreases calendars@.len() - i,
    {
        if str_eq(calendars[i].href.as_str(), href) {
            proof {
                lemma_calendar_title(calendar_views(calendars@), href@, i as int);
            }
            return calendars[i].display_name.clone();
        }
        i += 1;
    }
    assert(!exists|i: int|
        0 <= i < calendar_views(calendars@).len() && calendar_views(calendars@)[i].href == href@);
    "Events".to_owned()
}

impl App {
    /// The window at start-up, showing the accounts of `config`.
    pub fn new(config: Config) -> (r: Self)
        ensures
            r@.accounts == config@,
            r@.page == PageView::Accounts,
            r@.form == empty_form(),
            r@.status is None,
            !r@.is_loading,
            r@.calendars == Seq::<CalendarView>::empty(),
            r@.events == Seq::<EventView>::empty(),
            r@.current_calendar_name == Seq::<char>::empty(),
    {
        let r = App {
            config,
            view: View::Accounts,
            form: AccountForm::default(),
            status_message: None,
            is_loading: false,
            calendars: Vec::new(),
            events: Vec::new(),
            current_calendar_name: String::new(),
        };
        assert(r@.calendars =~= Seq::<CalendarView>::empty());
        assert(r@.events =~= Seq::<EventView>::empty());
        r
    }

    /// The first account with identifier `account_id`.
    pub fn account_by_id(&self, account_id: &str) -> (r: Option<&Account>)
        ensures
            match r {
                Some(a) => find_account(self@.accounts, account_id@) == Some(a@),
                None => find_account(self@.accounts, account_id@) is None,
            },
    {
        self.config.account_by_id(account_id)
    }

    /// A client for an account.
    pub fn client_for_account(&self, account: &Account) -> (r: CalDavClient)
        ensures
            client_for(r, account@),
    {
        CalDavClient::new(account.url.clone(), account.username.clone(), account.password.clone())
    }

    /// Shows the account list.
    pub fn show_accounts_view(&mut self)
        ensures
            final(self)@ == (AppModel { page: PageView::Accounts, status: None, ..old(self)@ }),
    {
        self.view = View::Accounts;
        self.status_message = None;
    }

    /// Shows an empty add-account form.
    pub fn show_add_account_view(&mut self)
        ensures
            final(self)@ == (AppModel {
                page: PageView::AddAccount,
                form: empty_form(),
                status: None,
                ..old(self)@
            }),
    {
        self.view = View::AddAccount;
        self.form.reset();
        self.status_message = None;
    }

    /// Opens the calendar list of an account and asks for its calendars;
    /// reports a missing account instead.
    pub fn begin_calendar_load(&mut self, account_id: String) -> (cmd: AppCommand)
        ensures
            after_calendar_load(old(self)@, final(self)@, account_id@, cmd),
    {
        self.view = View::Calendars { account_id: account_id.clone() };
        self.calendars = Vec::new();
        self.is_loading = true;
        self.status_message = None;
        assert(calendar_views(self.calendars@) =~= Seq::<CalendarView>::empty());
        let client = match self.account_by_id(account_id.as_str()) {
            Some(account) => self.client_for_account(account),
            None => {
                self.is_loading = false;
                self.status_message = Some("Account not found".to_owned());
                return AppCommand::Nothing;
            },
        };
        AppCommand::FetchCalendars { account_id, client }
    }

    /// Opens the event list of a calendar and asks for its events; reports a
    /// missing account instead.
    pub fn begin_event_load(&mut self, account_id: String, calendar_href: String) -> (cmd: AppCommand)
        ensures
            after_event_load(old(self)@, final(self)@, account_id@, calendar_href@, cmd),
    {
        self.current_calendar_name = calendar_title_of(&self.calendars, calendar_href.as_str());
        self.view = View::Events {
            account_id: account_id.clone(),
            calendar_href: calendar_href.clone(),
        };
        self.events = Vec::new();
        self.is_loading = true;
        self.status_message = None;
        assert(event_views(self.events@) =~= Seq::<EventView>::empty());
        let client = match self.account_by_id(account_id.as_str()) {
            Some(account) => self.client_for_account(account),
            None => {
                self.is_loading = false;
                self.status_message = Some("Account not found".to_owned());
                return AppCommand::Nothing;
            },
        };
        AppCommand::FetchEvents { account_id, calendar_href, client }
    }

    /// Starts a connection test with the form's details.
    pub fn begin_connection_test(&mut self) -> (cmd: AppCommand)
        ensures
            final(self)@ == (AppModel {
                is_loading: true,
                status: Some("Testing connection..."@),
                ..old(self)@
            }),
            cmd matches AppCommand::TestConnection { client } && client_from_form(client, old(self)@.form),
    {
        self.is_loading = true;
        self.status_message = Some("Testing connection...".to_owned());
        AppCommand::TestConnection { client: self.form.into_client() }
    }

    /// Saves the account: incomplete forms are refused; complete ones are
    /// first verified with a connection test.
    pub fn begin_account_save(&mut self) -> (cmd: AppCommand)
        ensures
            after_account_save(old(self)@, final(self)@, cmd),
    {
        if !self.form.is_complete() {
            self.status_message = Some("Please fill in all fields".to_owned());
            return AppCommand::Nothing;
        }
        self.is_loading = true;
        self.status_message = Some("Verifying...".to_owned());
        AppCommand::VerifyAccount { client: self.form.into_client() }
    }

    /// Reports the outcome of a connection test.
    pub fn handle_connection_test_result(&mut self, result: Result<(), String>)
        ensures
            final(self)@ == (AppModel {
                is_loading: false,
                status: Some(
                    match result {
                        Ok(()) => "✓ Connection successful!"@,
                        Err(e) => failure_status(e@),
                    },
                ),
                ..old(self)@
            }),
    {
        self.is_loading = false;
        self.status_message = Some(
            match result {
                Ok(()) => "✓ Connection successful!".to_owned(),
                Err(error) => prefixed("✗ ", &error),
            },
        );
    }

    /// After a successful verification the account's password goes to the
    /// keyring; a failed one is reported.
    pub fn handle_account_save_verified(&mut self, result: Result<(), String>) -> (cmd: AppCommand)
        ensures
            after_save_verified(old(self)@, final(self)@, unit_view(result), cmd),
    {
        self.is_loading = false;
        match result {
            Ok(()) => {
                let account = Account {
                    id: account_id_for(self.form.url.as_str(), self.form.username.as_str()),
                    display_name: display_name_for(
                        self.form.url.as_str(),
                        self.form.username.as_str(),
                    ),
                    url: self.form.url.clone(),
                    username: self.form.username.clone(),
                    password: self.form.password.clone(),
                };
                AppCommand::StoreAccount { account }
            },
            Err(error) => {
                self.status_message = Some(prefixed("✗ ", &error));
                AppCommand::Nothing
            },
        }
    }

    /// Once the keyring holds the password, the account joins the
    /// configuration (replacing one with the same identifier), the form's
    /// password is wiped and the account list is shown; a keyring failure is
    /// reported and nothing is added.
    pub fn handle_account_stored(&mut self, account: Account, result: Result<(), String>) -> (cmd: AppCommand)
        ensures
            after_account_stored(old(self)@, final(self)@, account@, unit_view(result), cmd),
    {
        match result {
            Ok(()) => {
                self.config.insert_account(account);
                zeroize_string(&mut self.form.password);
                self.view = View::Accounts;
                self.status_message = None;
                AppCommand::SaveConfig
            },
            Err(error) => {
                self.status_message = Some(prefixed("✗ ", &error));
                AppCommand::Nothing
            },
        }
    }

    /// Removes an account; its keyring entry and the file follow.
    pub fn delete_account(&mut self, id: String) -> (cmd: AppCommand)
        ensures
            final(self)@ == (AppModel {
                accounts: without_id(old(self)@.accounts, id@),
                ..old(self)@
            }),
            cmd matches AppCommand::ForgetAccount { id: i } && i@ == id@,
    {
        self.config.remove_account_entry(id.as_str());
        AppCommand::ForgetAccount { id }
    }

    /// Whether the window shows the calendars of `account_id`.
    fn shows_calendars_of(&self, account_id: &str) -> (r: bool)
        ensures
            r == (self@.page == PageView::Calendars(account_id@)),
    {
        match &self.view {
            View::Calendars { account_id: current } => str_eq(current.as_str(), account_id),
            _ => false,
        }
    }

    /// Whether the window shows the events of that calendar of that account.
    fn shows_events_of(&self, account_id: &str, calendar_href: &str) -> (r: bool)
        ensures
            r == (self@.page == PageView::Events(account_id@, calendar_href@)),
    {
        match &self.view {
            View::Events { account_id: current, calendar_href: href } => str_eq(
                current.as_str(),
                account_id,
            ) && str_eq(href.as_str(), calendar_href),
            _ => false,
        }
    }

    /// Shows loaded calendars, unless the window has moved on to another page.
    pub fn handle_calendars_loaded(&mut self, account_id: &str, result: Result<Vec<Calendar>, String>)
        ensures
            after_calendars_loaded(old(self)@, final(self)@, account_id@, result),
    {
        self.is_loading = false;
        if !self.shows_calendars_of(account_id) {
            return;
        }
        match result {
            Ok(calendars) => {
                self.calendars = calendars;
                self.status_message = None;
            },
            Err(error) => {
                self.calendars = Vec::new();
                self.status_message = Some(prefixed("Error: ", &error));
                assert(calendar_views(self.calendars@) =~= Seq::<CalendarView>::empty());
            },
        }
    }

    /// Shows loaded events ordered by start, unless the window has moved on.
    pub fn handle_events_loaded(
        &mut self,
        account_id: &str,
        calendar_href: &str,
        result: Result<Vec<CalendarEvent>, String>,
    )
        ensures
            after_events_loaded(old(self)@, final(self)@, account_id@, calendar_href@, result),
    {
        self.is_loading = false;
        if !self.shows_events_of(account_id, calendar_href) {
            return;
        }
        match result {
            Ok(events) => {
                self.events = sort_by_start_time(events);
                self.status_message = None;
            },
            Err(error) => {
                self.events = Vec::new();
                self.status_message = Some(prefixed("Error: ", &error));
                assert(event_views(self.events@) =~= Seq::<EventView>::empty());
            },
        }
    }

    /// Answers a message.
    pub fn update(&mut self, message: Message) -> (cmd: AppCommand)
        ensures
            message is ViewAccounts ==> final(self)@ == (AppModel {
                page: PageView::Accounts,
                status: None,
                ..old(self)@
            }) && cmd is Nothing,
            message is ViewAddAccount ==> final(self)@ == (AppModel {
                page: PageView::AddAccount,
                form: empty_form(),
                status: None,
                ..old(self)@
            }) && cmd is Nothing,
            message matches Message::ProviderSelected(p) ==> final(self)@ == (AppModel {
                form: form_with_provider(old(self)@.form, p),
                ..old(self)@
            }) && cmd is Nothing,
            message matches Message::UrlChanged(u) ==> final(self)@ == (AppModel {
                form: FormView { url: u@, ..old(self)@.form },
                ..old(self)@
            }) && cmd is Nothing,
            message matches Message::UsernameChanged(u) ==> final(self)@ == (AppModel {
                form: form_with_username(old(self)@.form, u@),
                ..old(self)@
            }) && cmd is Nothing,
            message matches Message::PasswordChanged(p) ==> final(self)@ == (AppModel {
                form: FormView { password: p@, ..old(self)@.form },
                ..old(self)@
            }) && cmd is Nothing,
            message matches Message::DeleteAccount(id) ==> final(self)@ == (AppModel {
                accounts: without_id(old(self)@.accounts, id@),
                ..old(self)@
            }) && (cmd matches AppCommand::ForgetAccount { id: i } && i@ == id@),
            message matches Message::ConnectionTestFinished(r) ==> final(self)@ == (AppModel {
                is_loading: false,
                status: Some(
                    match r {
                        Ok(()) => "✓ Connection successful!"@,
                        Err(e) => failure_status(e@),
                    },
                ),
                ..old(self)@
            }) && cmd is Nothing,
            message is TestConnection ==> (cmd matches AppCommand::TestConnection { client }
                && client_from_form(client, old(self)@.form)),
            message is TestConnection ==> final(self)@ == (AppModel {
                is_loading: true,
                status: Some("Testing connection..."@),
                ..old(self)@
            }),
            message is SaveAccount ==> after_account_save(old(self)@, final(self)@, cmd),
            message matches Message::ViewCalendars { account_id } ==> after_calendar_load(
                old(self)@,
                final(self)@,
                account_id@,
                cmd,
            ),
            message matches Message::ViewEvents { account_id, calendar_href } ==> after_event_load(
                old(self)@,
                final(self)@,
                account_id@,
                calendar_href@,
                cmd,
            ),
            message matches Message::AccountSaveVerified(r) ==> after_save_verified(
                old(self)@,
                final(self)@,
                unit_view(r),
                cmd,
            ),
            message matches Message::AccountStored { account, result } ==> after_account_stored(
                old(self)@,
                final(self)@,
                account@,
                unit_view(result),
                cmd,
            ),
            message matches Message::CalendarsLoaded { account_id, result } ==> after_calendars_loaded(
                old(self)@,
                final(self)@,
                account_id@,
                result,
            ) && cmd is Nothing,
            message matches Message::EventsLoaded { account_id, calendar_href, result }
                ==> after_events_loaded(
                old(self)@,
                final(self)@,
                account_id@,
                calendar_href@,
                result,
            ) && cmd is Nothing,
    {
        match message {
            Message::ViewAccounts => {
                self.show_accounts_view();
                AppCommand::Nothing
            },
            Message::ViewAddAccount => {
                self.show_add_account_view();
                AppCommand::Nothing
            },
            Message::ProviderSelected(provider) => {
                self.form.select_provider(provider);
                AppCommand::Nothing
            },
            Message::ViewCalendars { account_id } => self.begin_calendar_load(account_id),
            Message::ViewEvents { account_id, calendar_href } => self.begin_event_load(
                account_id,
                calendar_href,
            ),
            Message::UrlChanged(url) => {
                self.form.url = url;
                AppCommand::Nothing
            },
            Message::UsernameChanged(username) => {
                self.form.set_username(username);
                AppCommand::Nothing
            },
            Message::PasswordChanged(password) => {
                self.form.password = password;
                AppCommand::Nothing
            },
            Message::TestConnection => self.begin_connection_test(),
            Message::SaveAccount => self.begin_account_save(),
            Message::DeleteAccount(id) => self.delete_account(id),
            Message::ConnectionTestFinished(result) => {
                self.handle_connection_test_result(result);
                AppCommand::Nothing
            },
            Message::AccountSaveVerified(result) => self.handle_account_save_verified(result),
            Message::AccountStored { account, result } => self.handle_account_stored(account, result),
            Message::CalendarsLoaded { account_id, result } => {
                self.handle_calendars_loaded(account_id.as_str(), result);
                AppCommand::Nothing
            },
            Message::EventsLoaded { account_id, calendar_href, result } => {
                self.handle_events_loaded(account_id.as_str(), calendar_href.as_str(), result);
                AppCommand::Nothing
            },
        }
    }
}


// ----------------------------------------------------------------------------
// Event cards
// ----------------------------------------------------------------------------

/// The location line of an event card: a pin before a non-empty location.
pub open spec fn card_location_text(location: Option<Seq<char>>) -> Option<Seq<char>> {
    match location {
        Some(l) => if l.len() > 0 { Some("📍 "@ + l) } else { None },
        None => None,
    }
}

/// The description line of an event card: a non-empty description, cut to
/// its first 100 characters and an ellipsis when it is longer.
pub open spec fn card_description_text(description: Option<Seq<char>>) -> Option<Seq<char>> {
    match description {
        Some(d) => if d.len() == 0 {
            None
        } else if d.len() > 100 {
            Some(d.take(100) + "…"@)
        } else {
            Some(d)
        },
        None => None,
    }
}

/// `%a, %d %b %Y  %H:%M` of a local date-time.
pub open spec fn card_start_text(t: Stamp) -> Seq<char> {
    weekday_abbrev_text(weekday_number(t.date) as u32) + ", "@ + two_digits(t.date.day as nat) + " "@
        + month_abbrev_text(t.date.month) + " "@ + year_text(t.date.year as int) + "  "@ + clock_text(t)
}

/// The date line of an event card, given the local start and end: the start,
/// then the end's time after a dash; `No date` without a start.
pub open spec fn card_date_text(start: Option<Stamp>, end: Option<Stamp>) -> Seq<char> {
    match start {
        Some(s) => match end {
            Some(e) => card_start_text(s) + " – "@ + clock_text(e),
            None => card_start_text(s),
        },
        None => "No date"@,
    }
}

/// The location line of an event card.
pub fn card_location(location: &Option<String>) -> (r: Option<String>)
    ensures
        r.deep_view() == card_location_text(location.deep_view()),
{
    match location {
        Some(l) => if !l.as_str().is_empty() {
            let mut out: Vec<char> = Vec::new();
            push_str_chars(&mut out, "📍 ");
            push_str_chars(&mut out, l.as_str());
            Some(string_of(out.as_slice()))
        } else {
            None
        },
        None => None,
    }
}

/// The description line of an event card.
pub fn card_description(description: &Option<String>) -> (r: Option<String>)
    ensures
        r.deep_view() == card_description_text(description.deep_view()),
{
    match description {
        Some(d) => {
            let v = chars_of(d.as_str());
            if v.len() == 0 {
                None
            } else if v.len() > 100 {
                let mut out = slice_chars(v.as_slice(), 0, 100);
                push_str_chars(&mut out, "…");
                assert(out@ =~= d@.take(100) + "…"@);
                Some(string_of(out.as_slice()))
            } else {
                Some(d.clone())
            }
        },
        None => None,
    }
}

fn push_card_start(out: &mut Vec<char>, t: &Stamp)
    requires
        stamp_valid(*t),
    ensures
        final(out)@ == old(out)@ + card_start_text(*t),
{
    let w = weekday_from_sunday(&t.date);
    push_str_chars(out, weekday_abbrev(w));
    push_str_chars(out, ", ");
    push_two_digits(out, t.date.day);
    push_str_chars(out, " ");
    push_str_chars(out, month_abbrev(t.date.month));
    push_str_chars(out, " ");
    push_year(out, t.date.year);
    push_str_chars(out, "  ");
    let c = clock_string(t);
    push_str_chars(out, c.as_str());
    assert(out@ =~= old(out)@ + card_start_text(*t));
}

/// The date line of an event card, given its local start and end.
pub fn card_date(start: Option<Stamp>, end: Option<Stamp>) -> (r: String)
    requires
        start matches Some(s) ==> stamp_valid(s),
        end matches Some(e) ==> stamp_valid(e),
    ensures
        r@ == card_date_text(start, end),
{
    let mut out: Vec<char> = Vec::new();
    match start {
        Some(s) => {
            push_card_start(&mut out, &s);
            match end {
                Some(e) => {
                    push_str_chars(&mut out, " – ");
                    let c = clock_string(&e);
                    push_str_chars(&mut out, c.as_str());
                },
                None => {},
            }
        },
        None => push_str_chars(&mut out, "No date"),
    }
    assert(out@ =~= card_date_text(start, end));
    string_of(out.as_slice())
}

/// The date line of an event's card ([`card_date_text`]), with its start
/// and end in the machine's local time (each less than a day off UTC).
pub fn event_card_date(event: &CalendarEvent) -> (r: String)
    requires
        event_times_ok(event@),
    ensures
        event.start is None ==> r@ == "No date"@,
        event.start matches Some(s) ==> exists|ls: Stamp, le: Option<Stamp>|
            #![trigger card_date_text(Some(ls), le)]
            stamp_valid(ls) && within_a_day(ls, s) && (le is Some <==> event.end is Some) && (le
                matches Some(x) ==> stamp_valid(x) && within_a_day(x, event.end->0)) && r@
                == card_date_text(Some(ls), le),
{
    let start = match event.start {
        Some(s) => {
            Some(local_from_utc(&s))
        },
        None => None,
    };
    let end = match (event.start, event.end) {
        (Some(_), Some(e)) => {
            Some(local_from_utc(&e))
        },
        _ => None,
    };
    card_date(start, end)
}

} // verus!
