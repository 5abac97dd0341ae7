//! The values that the pallet stores, receives and emits.

use vstd::prelude::*;

verus! {

/// An account, as the pallet's runtime identifies it.
pub type AccountId = u64;

/// The 32-byte identifier of a weather proposal.
pub type ProposalHash = [u8; 32];

/// One weather report. The numeric readings are stored multiplied by 1000.
#[derive(Debug, PartialEq, Eq)]
pub struct Weather {
    time: u64,
    city: Vec<u8>,
    main: Vec<u8>,
    description: Vec<u8>,
    icon: Vec<u8>,
    temp: u32,
    humidity: u32,
    wind: u32,
    clouds: u32,
    sunrise: u64,
    sunset: u64,
}

/// The contents of a [`Weather`] report.
pub struct WeatherView {
    pub time: u64,
    pub city: Seq<u8>,
    pub main: Seq<u8>,
    pub description: Seq<u8>,
    pub icon: Seq<u8>,
    pub temp: u32,
    pub humidity: u32,
    pub wind: u32,
    pub clouds: u32,
    pub sunrise: u64,
    pub sunset: u64,
}

impl View for Weather {
    type V = WeatherView;

    closed spec fn view(&self) -> WeatherView {
        WeatherView {
            time: self.time,
            city: self.city@,
            main: self.main@,
            description: self.description@,
            icon: self.icon@,
            temp: self.temp,
            humidity: self.humidity,
            wind: self.wind,
            clouds: self.clouds,
            sunrise: self.sunrise,
            sunset: self.sunset,
        }
    }
}

impl Weather {
    /// The contents of an empty report.
    pub open spec fn default_view() -> WeatherView {
        WeatherView {
            time: 0,
            city: Seq::empty(),
            main: Seq::empty(),
            description: Seq::empty(),
            icon: Seq::empty(),
            temp: 0,
            humidity: 0,
            wind: 0,
            clouds: 0,
            sunrise: 0,
            sunset: 0,
        }
    }

    /// Builds a report from its readings.
    pub fn new(
        time: u64,
        city: Vec<u8>,
        main: Vec<u8>,
        description: Vec<u8>,
        icon: Vec<u8>,
        temp: u32,
        humidity: u32,
        wind: u32,
        clouds: u32,
        sunrise: u64,
        sunset: u64,
    ) -> (w: Weather)
        ensures
            w@ == (WeatherView {
                time,
                city: city@,
                main: main@,
                description: description@,
                icon: icon@,
                temp,
                humidity,
                wind,
                clouds,
                sunrise,
                sunset,
            }),
    {
        Weather {
            time,
            city,
            main,
            description,
            icon,
            temp,
            humidity,
            wind,
            clouds,
            sunrise,
            sunset,
        }
    }

    pub fn time(&self) -> (r: u64)
        ensures
            r == self@.time,
    {
        self.time
    }

    pub fn city(&self) -> (r: &Vec<u8>)
        ensures
            r@ == self@.city,
    {
        &self.city
    }

    pub fn main(&self) -> (r: &Vec<u8>)
        ensures
            r@ == self@.main,
    {
        &self.main
    }

    pub fn description(&self) -> (r: &Vec<u8>)
        ensures
            r@ == self@.description,
    {
        &self.description
    }

    pub fn icon(&self) -> (r: &Vec<u8>)
        ensures
            r@ == self@.icon,
    {
        &self.icon
    }

    pub fn temp(&self) -> (r: u32)
        ensures
            r == self@.temp,
    {
        self.temp
    }

    pub fn humidity(&self) -> (r: u32)
        ensures
            r == self@.humidity,
    {
        self.humidity
    }

    pub fn wind(&self) -> (r: u32)
        ensures
            r == self@.wind,
    {
        self.wind
    }

    pub fn clouds(&self) -> (r: u32)
        ensures
            r == self@.clouds,
    {
        self.clouds
    }

    pub fn sunrise(&self) -> (r: u64)
        ensures
            r == self@.sunrise,
    {
        self.sunrise
    }

    pub fn sunset(&self) -> (r: u64)
        ensures
            r == self@.sunset,
    {
        self.sunset
    }
}

impl Clone for Weather {
    fn clone(&self) -> (w: Weather)
        ensures
            w@ == self@,
    {
        Weather {
            time: self.time,
            city: self.city.clone(),
            main: self.main.clone(),
            description: self.description.clone(),
            icon: self.icon.clone(),
            temp: self.temp,
            humidity: self.humidity,
            wind: self.wind,
            clouds: self.clouds,
            sunrise: self.sunrise,
            sunset: self.sunset,
        }
    }
}

impl Default for Weather {
    fn default() -> (w: Weather)
        ensures
            w@ == Weather::default_view(),
    {
        Weather::new(0, Vec::new(), Vec::new(), Vec::new(), Vec::new(), 0, 0, 0, 0, 0, 0)
    }
}

/// Who dispatched a call.
#[derive(Debug, Clone, Copy, PartialEq, Eq, Structural)]
pub enum Origin {
    /// The privileged root (governance or sudo).
    Root,
    /// A transaction signed by this account.
    Signed(AccountId),
    /// Signed by nobody: an unsigned transaction or an inherent.
    Unsigned,
}

/// Why a dispatched call was refused.
#[derive(Debug, Clone, Copy, PartialEq, Eq)]
pub enum DispatchError {
    /// The origin is not the one the call needs.
    BadOrigin,
    /// A refusal with its reason.
    Other(&'static str),
}

/// The failures of an off-chain HTTP request.
#[derive(Debug, Clone, Copy, PartialEq, Eq, Structural)]
pub enum HttpError {
    /// The deadline was reached before the response came.
    DeadlineReached,
    /// The request could not be sent.
    IoError,
    /// Any other failure, such as a status other than 200.
    Unknown,
}

/// What the pallet reports after a successful call.
#[derive(Debug)]
pub enum Event {
    ProposalAuthoritiesAdded(AccountId),
    ProposalAuthoritiesDeleted(AccountId),
    VoteAuthoritiesAdded(AccountId),
    VoteAuthoritiesDeleted(AccountId),
    VoteThresholdSet(u64),
    WeatherProposalSubmitted(AccountId, ProposalHash, Weather),
    WeatherVoteSubmitted(AccountId, ProposalHash),
    ProposalAuthorityReputationVoteSubmitted(AccountId, AccountId),
    VoteAuthorityReputationVoteSubmitted(AccountId, AccountId),
}

/// Succeeds only for the root origin.
pub fn ensure_root(origin: Origin) -> (r: Result<(), DispatchError>)
    ensures
        r == (if origin == Origin::Root {
            Ok::<(), DispatchError>(())
        } else {
            Err(DispatchError::BadOrigin)
        }),
{
    match origin {
        Origin::Root => Ok(()),
        _ => Err(DispatchError::BadOrigin),
    }
}

/// Succeeds, with the signer, only for a signed origin.
pub fn ensure_signed(origin: Origin) -> (r: Result<AccountId, DispatchError>)
    ensures
        r == (match origin {
            Origin::Signed(who) => Ok::<AccountId, DispatchError>(who),
            _ => Err(DispatchError::BadOrigin),
        }),
{
    match origin {
        Origin::Signed(who) => Ok(who),
        _ => Err(DispatchError::BadOrigin),
    }
}

} // verus!
