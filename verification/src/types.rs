//! Core domain types of the fundraising engine: identifiers, amounts,
//! project metadata and details, round statuses, bids, contributions,
//! errors and events.
//!
//! Prices and USD amounts are fixed-point integers: a price carries
//! `PRICE_UNIT` units per whole USD-per-token, so a price of `1_200_000`
//! means 1.2 USD per token. Token amounts are plain integers.
use vstd::prelude::*;

verus! {

/// An amount of tokens, native currency, funding asset or USD.
pub type Balance = u128;

/// An on-chain account.
pub type AccountId = u64;

/// A block height, the engine's clock.
pub type BlockNumber = u64;

/// Identifier of a project, assigned in creation order.
pub type ProjectId = u32;

/// A decentralized identity: the aggregation key for per-participant caps.
/// One identity may control several accounts.
pub type Did = u64;

/// Leverage factor reducing the native-token bond per unit of USD exposure.
pub type Multiplier = u8;

/// Fixed-point scale of prices: a price of `PRICE_UNIT` is 1 USD per token.
pub const PRICE_UNIT: u128 = 1_000_000;

/// Blocks an evaluation round lasts once started.
pub const EVALUATION_DURATION: u64 = 28;

/// Blocks of the fixed-price (English) sub-phase of the auction.
pub const ENGLISH_AUCTION_DURATION: u64 = 10;

/// Blocks of the descending-price (Candle) sub-phase of the auction.
pub const CANDLE_AUCTION_DURATION: u64 = 5;

/// Blocks of the community round.
pub const COMMUNITY_ROUND_DURATION: u64 = 10;

/// Blocks of the remainder round.
pub const REMAINDER_ROUND_DURATION: u64 = 5;

/// Largest multiplier a retail investor may use.
pub const RETAIL_MAX_MULTIPLIER: u8 = 2;

/// Largest multiplier a professional investor may use.
pub const PROFESSIONAL_MAX_MULTIPLIER: u8 = 10;

/// Largest multiplier an institutional investor may use.
pub const INSTITUTIONAL_MAX_MULTIPLIER: u8 = 25;

/// Cap on the number of contributions one account may hold in one project.
pub const MAX_CONTRIBUTIONS_PER_USER: usize = 16;

/// Asset identifier of the native bonding token.
pub const PLMC_ASSET_ID: u32 = 2069;

/// The funding assets a project may accept, with their asset identifiers.
#[derive(Clone, Copy, PartialEq, Eq, Structural, Debug)]
pub enum AcceptedFundingAsset {
    USDT,
    USDC,
    DOT,
}

impl AcceptedFundingAsset {
    /// The numeric asset identifier used by the custody subsystem.
    pub fn id(&self) -> (r: u32)
        ensures
            r == self.spec_id(),
    {
        match self {
            AcceptedFundingAsset::USDT => 1984,
            AcceptedFundingAsset::USDC => 420,
            AcceptedFundingAsset::DOT => 0,
        }
    }

    pub open spec fn spec_id(self) -> u32 {
        match self {
            AcceptedFundingAsset::USDT => 1984,
            AcceptedFundingAsset::USDC => 420,
            AcceptedFundingAsset::DOT => 0,
        }
    }
}

/// Investor classes, each with its own ticket-size ceiling and
/// multiplier bound.
#[derive(Clone, Copy, PartialEq, Eq, Structural, Debug)]
pub enum InvestorType {
    Retail,
    Professional,
    Institutional,
}

/// Sub-phases of the auction round: fixed-price acceptance, then
/// descending-price discovery.
#[derive(Clone, Copy, PartialEq, Eq, Structural, Debug)]
pub enum AuctionPhase {
    English,
    Candle,
}

/// Lifecycle status of a project. Transitions only move forward.
#[derive(Clone, Copy, PartialEq, Eq, Structural, Debug)]
pub enum ProjectStatus {
    Application,
    EvaluationRound,
    EvaluationEnded,
    AuctionRound(AuctionPhase),
    CommunityRound,
    RemainderRound,
    FundingEnded,
    FundingFailed,
}

impl ProjectStatus {
    /// Position of a status in the lifecycle: later phases have larger
    /// indices, and the terminal failure sits past every ordinary phase.
    pub open spec fn phase_index(self) -> int {
        match self {
            ProjectStatus::Application => 0,
            ProjectStatus::EvaluationRound => 1,
            ProjectStatus::EvaluationEnded => 2,
            ProjectStatus::AuctionRound(AuctionPhase::English) => 3,
            ProjectStatus::AuctionRound(AuctionPhase::Candle) => 4,
            ProjectStatus::CommunityRound => 5,
            ProjectStatus::RemainderRound => 6,
            ProjectStatus::FundingEnded => 7,
            ProjectStatus::FundingFailed => 8,
        }
    }
}

/// Lower and upper bound of a USD ticket size; `None` leaves the side open.
#[derive(Clone, Copy, PartialEq, Eq, Debug)]
pub struct TicketSize {
    pub minimum: Option<Balance>,
    pub maximum: Option<Balance>,
}

impl TicketSize {
    /// Whether a ticket is at or above the minimum (an open side accepts all).
    pub open spec fn spec_above_minimum(self, ticket: Balance) -> bool {
        match self.minimum {
            Some(m) => ticket >= m,
            None => true,
        }
    }

    /// Whether a ticket is at or below the maximum (an open side accepts all).
    pub open spec fn spec_below_maximum(self, ticket: Balance) -> bool {
        match self.maximum {
            Some(m) => ticket <= m,
            None => true,
        }
    }

    pub fn usd_ticket_above_minimum_per_participation(&self, ticket: Balance) -> (r: bool)
        ensures
            r == self.spec_above_minimum(ticket),
    {
        match self.minimum {
            Some(m) => ticket >= m,
            None => true,
        }
    }

    pub fn usd_ticket_below_maximum_per_did(&self, ticket: Balance) -> (r: bool)
        ensures
            r == self.spec_below_maximum(ticket),
    {
        match self.maximum {
            Some(m) => ticket <= m,
            None => true,
        }
    }
}

/// Lower and upper bound on the number of participants.
#[derive(Clone, Copy, PartialEq, Eq, Debug)]
pub struct ParticipantsSize {
    pub minimum: Option<u32>,
    pub maximum: Option<u32>,
}

/// Ticket-size ceilings per investor class for the contribution rounds.
#[derive(Clone, Copy, PartialEq, Eq, Debug)]
pub struct ContributingTicketSizes {
    pub retail: TicketSize,
    pub professional: TicketSize,
    pub institutional: TicketSize,
}

/// Immutable metadata of a project, fixed at creation.
#[derive(Clone, PartialEq, Eq, Debug)]
pub struct Project {
    /// Lowest price, in `PRICE_UNIT` fixed point, a bid may offer.
    pub minimum_price: Balance,
    /// Bounds on a single auction ticket.
    pub ticket_size: TicketSize,
    /// Bounds on the number of participants.
    pub participants_size: ParticipantsSize,
    /// Tokens offered across auction and contribution rounds.
    pub total_allocation_size: Balance,
    /// Ticket ceilings per investor class for the contribution rounds.
    pub contributing_ticket_sizes: ContributingTicketSizes,
    /// Funding assets this project accepts.
    pub participation_currencies: Vec<AcceptedFundingAsset>,
    /// USD bond the evaluation round must reach for the project to go on.
    pub evaluation_threshold: Balance,
    /// USD the contribution rounds must raise for the funding to succeed.
    pub funding_threshold: Balance,
    /// Hash of the off-chain participation policy, if one is set.
    pub policy: Option<u64>,
}

impl Project {
    /// Whether the metadata accepts the given funding asset.
    pub open spec fn spec_accepts_asset(self, asset: AcceptedFundingAsset) -> bool {
        self.participation_currencies@.contains(asset)
    }

    /// The contribution-round ticket bounds applying to an investor class.
    pub open spec fn spec_ticket_bounds(self, investor: InvestorType) -> TicketSize {
        match investor {
            InvestorType::Retail => self.contributing_ticket_sizes.retail,
            InvestorType::Professional => self.contributing_ticket_sizes.professional,
            InvestorType::Institutional => self.contributing_ticket_sizes.institutional,
        }
    }
}

impl Default for Project {
    /// An empty project shell: every bound open, nothing allocated,
    /// only USDT accepted.
    fn default() -> (r: Self)
        ensures
            r.minimum_price == 0,
            r.ticket_size.minimum.is_none() && r.ticket_size.maximum.is_none(),
            r.participants_size.minimum.is_none() && r.participants_size.maximum.is_none(),
            r.total_allocation_size == 0,
            r.contributing_ticket_sizes.retail.minimum.is_none(),
            r.contributing_ticket_sizes.retail.maximum.is_none(),
            r.contributing_ticket_sizes.professional.minimum.is_none(),
            r.contributing_ticket_sizes.professional.maximum.is_none(),
            r.contributing_ticket_sizes.institutional.minimum.is_none(),
            r.contributing_ticket_sizes.institutional.maximum.is_none(),
            r.participation_currencies@ =~= seq![AcceptedFundingAsset::USDT],
            r.evaluation_threshold == 0,
            r.funding_threshold == 0,
            r.policy.is_none(),
    {
        let open_ticket = TicketSize { minimum: None, maximum: None };
        let mut currencies: Vec<AcceptedFundingAsset> = Vec::new();
        currencies.push(AcceptedFundingAsset::USDT);
        Project {
            minimum_price: 0,
            ticket_size: open_ticket,
            participants_size: ParticipantsSize { minimum: None, maximum: None },
            total_allocation_size: 0,
            contributing_ticket_sizes: ContributingTicketSizes {
                retail: open_ticket,
                professional: open_ticket,
                institutional: open_ticket,
            },
            participation_currencies: currencies,
            evaluation_threshold: 0,
            funding_threshold: 0,
            policy: None,
        }
    }
}

/// Mutable state of a project as the rounds progress.
#[derive(Clone, Copy, PartialEq, Eq, Debug)]
pub struct ProjectDetails {
    pub project_status: ProjectStatus,
    /// Identity of the issuer, barred from participating in its own project.
    pub issuer_did: Did,
    /// Block at which the evaluation round ends, once started.
    pub evaluation_period_ends: BlockNumber,
    /// Block at which the English sub-phase ends, once the auction starts.
    pub english_ends: BlockNumber,
    /// Block at which the Candle sub-phase ends, once the auction starts.
    pub candle_ends: BlockNumber,
    /// Block at which the community round ends, once it starts.
    pub community_ends: BlockNumber,
    /// Block at which the remainder round ends, once it starts.
    pub remainder_ends: BlockNumber,
    /// The clearing price, set once when the auction closes and frozen.
    pub weighted_average_price: Option<Balance>,
    /// Tokens still purchasable in the contribution rounds; only decreases.
    pub remaining_contribution_tokens: Balance,
    /// Cumulative USD raised by contributions.
    pub funding_amount_reached: Balance,
}

/// Outcome a bid ends in once the auction closes.
#[derive(Clone, Copy, PartialEq, Eq, Structural, Debug)]
pub enum BidStatus {
    Pending,
    Accepted,
    /// Accepted for less than the requested amount; the payload is the
    /// token amount actually filled.
    PartiallyAccepted(Balance),
    Rejected,
    Refunded,
}

/// A bid recorded during the auction round.
#[derive(Clone, Copy, PartialEq, Eq, Structural, Debug)]
pub struct BidInfo {
    pub id: u32,
    pub project_id: ProjectId,
    pub bidder: AccountId,
    /// Identity behind the bidding account, for per-identity caps.
    pub did: Did,
    pub status: BidStatus,
    /// Token amount the bidder asked for.
    pub original_ct_amount: Balance,
    /// Price offered, in `PRICE_UNIT` fixed point.
    pub original_ct_usd_price: Balance,
    pub funding_asset: AcceptedFundingAsset,
    pub funding_asset_amount_locked: Balance,
    pub multiplier: Multiplier,
    pub plmc_bond: Balance,
    /// Block at which the bid was submitted.
    pub when: BlockNumber,
}

/// A purchase recorded during the community or remainder round.
#[derive(Clone, Copy, PartialEq, Eq, Structural, Debug)]
pub struct ContributionInfo {
    pub id: u32,
    pub project_id: ProjectId,
    pub contributor: AccountId,
    pub did: Did,
    /// Tokens bought.
    pub ct_amount: Balance,
    /// USD value of the purchase at the clearing price.
    pub usd_contribution_amount: Balance,
    pub multiplier: Multiplier,
    pub funding_asset: AcceptedFundingAsset,
    pub funding_asset_amount: Balance,
    pub plmc_bond: Balance,
    pub when: BlockNumber,
}

/// Aggregate of the evaluation round of one project.
#[derive(Clone, Copy, PartialEq, Eq, Structural, Debug)]
pub struct EvaluationMetadata {
    /// Total USD-equivalent bonded by evaluators.
    pub amount_bonded: Balance,
}

/// Everything that can go wrong with an operation, detected before any
/// state is written.
#[derive(Clone, Copy, PartialEq, Eq, Structural, Debug)]
pub enum Error {
    /// The project id names no project.
    ProjectNotFound,
    /// The issuer set a zero minimum price at creation.
    PriceTooLow,
    /// Both participant bounds were left open at creation.
    ParticipantsSizeError,
    /// Both ticket bounds were left open at creation.
    TicketSizeError,
    /// The caller is not allowed to advance this project.
    NotAllowed,
    /// The operation does not belong to the project's current round.
    IncorrectRound,
    /// Bonding was attempted before the evaluation round opened.
    EvaluationNotStarted,
    /// Bidding or contributing was attempted outside the auction flow.
    AuctionNotStarted,
    /// The round's end block has been reached.
    TooLateForRound,
    /// The ticket is below the class minimum.
    TooLow,
    /// The identity's cumulative USD would exceed the class ceiling.
    TooHigh,
    /// The account already holds the per-user cap of contributions.
    TooManyUserParticipations,
    /// The multiplier is zero or above the investor class's bound.
    ForbiddenMultiplier,
    /// No contribution tokens remain.
    ProjectSoldOut,
    /// The presented policy hash differs from the project's.
    PolicyMismatch,
    /// The issuer's own identity tried to participate.
    ParticipationToOwnProject,
    /// The identity holds a winning bid and the remainder round is not open.
    UserHasWinningBid,
    /// The account's balance cannot cover the required escrow.
    InsufficientBalance,
    /// The chosen funding asset is not accepted by the project.
    FundingAssetNotAccepted,
    /// A fixed-point conversion overflowed, or an oracle price is unusable.
    BadMath,
    /// A state no valid history can reach; a programming error.
    ImpossibleState,
    /// The clearing price was needed before the auction set it.
    WapNotSet,
}

/// Domain events, one per successful state-changing operation.
#[derive(Clone, Copy, PartialEq, Eq, Structural, Debug)]
pub enum Event {
    Created { project_id: ProjectId, issuer: AccountId },
    EvaluationStarted { project_id: ProjectId },
    Bonded { project_id: ProjectId, account: AccountId, amount: Balance },
    AuctionStarted { project_id: ProjectId, when: BlockNumber },
    BidPlaced { project_id: ProjectId, bidder: AccountId, amount: Balance, price: Balance },
    StatusChanged { project_id: ProjectId, status: ProjectStatus },
    Contribution {
        project_id: ProjectId,
        contributor: AccountId,
        id: u32,
        ct_amount: Balance,
        funding_asset: AcceptedFundingAsset,
        funding_amount: Balance,
        plmc_bond: Balance,
        multiplier: Multiplier,
    },
}

} // verus!
