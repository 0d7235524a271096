//! The cards: what they cost, what they are played on, and how they pass
//! between the deck, the hand and the piles.

use vstd::prelude::*;
use crate::geometry::{CardinalDirection, Coordinate};

verus! {

/// The power left until the next hand is drawn, and the power a full
/// countdown has.
#[derive(Clone, Copy, Debug, PartialEq, Eq, Structural)]
pub struct DrawCountdown {
    pub current: u32,
    pub max: u32,
}

#[derive(Clone, Copy, Debug, PartialEq, Eq, Structural)]
pub enum Card {
    Bump,
    Blink,
    Heal,
    Spark,
    Clog,
    Parasite,
    Drain,
}

/// What a card is played on.
#[derive(Clone, Copy, Debug, PartialEq, Eq, Structural)]
pub enum CardParam {
    Coord(Coordinate),
    CardinalDirection(CardinalDirection),
    Confirm,
}

pub open spec fn card_cost(card: Card) -> u32 {
    match card {
        Card::Blink => 20,
        Card::Bump => 10,
        Card::Heal => 5,
        Card::Spark => 20,
        Card::Clog => 10,
        Card::Parasite => 10,
        Card::Drain => 40,
    }
}

impl Card {
    /// The power it takes to play the card.
    pub fn cost(self) -> (r: u32)
        ensures
            r == card_cost(self),
    {
        match self {
            Card::Blink => 20,
            Card::Bump => 10,
            Card::Heal => 5,
            Card::Spark => 20,
            Card::Clog => 10,
            Card::Parasite => 10,
            Card::Drain => 40,
        }
    }
}

/// Whether `card` is played on a thing like `param`.
pub open spec fn card_takes(card: Card, param: CardParam) -> bool {
    match (card, param) {
        (Card::Blink, CardParam::Coord(_)) => true,
        (Card::Bump, CardParam::CardinalDirection(_)) => true,
        (Card::Spark, CardParam::CardinalDirection(_)) => true,
        (Card::Heal, CardParam::Confirm) => true,
        (Card::Clog, CardParam::Confirm) => true,
        (Card::Parasite, CardParam::Confirm) => true,
        (Card::Drain, CardParam::Confirm) => true,
        _ => false,
    }
}

/// What picking a hand slot comes to.
#[derive(Clone, Copy, Debug, PartialEq, Eq, Structural)]
pub enum CardChoice {
    /// The hand has no such slot.
    Locked,
    /// The slot holds no card.
    Empty,
    /// The card costs more power than there is.
    NotEnoughPower,
    /// The card is played in a direction, which is asked for next.
    Direction,
    /// The card is played on a cell, which is asked for next, starting
    /// from this one.
    Location(Coordinate),
    /// The card is played on nothing, and only needs to be confirmed.
    Confirm,
}

/// What picking the slot `slot` of `hand` comes to for a player at `player`
/// with `power` left: no choice where the hand has no such slot, the slot is
/// empty or the card costs more than `power`; otherwise what the card is
/// played on, a location starting from the player's own cell.
pub open spec fn card_choice(hand: Seq<Option<Card>>, power: u32, slot: usize, player: Coordinate)
    -> CardChoice {
    if slot >= hand.len() {
        CardChoice::Locked
    } else {
        match hand[slot as int] {
            None => CardChoice::Empty,
            Some(card) => if power < card_cost(card) {
                CardChoice::NotEnoughPower
            } else {
                match card {
                    Card::Bump | Card::Spark => CardChoice::Direction,
                    Card::Blink => CardChoice::Location(player),
                    Card::Heal | Card::Clog | Card::Parasite | Card::Drain => CardChoice::Confirm,
                }
            },
        }
    }
}

/// What picking the slot `slot` of `hand` comes to: see [`card_choice`].
pub fn select_card(hand: &Vec<Option<Card>>, power: u32, slot: usize, player: Coordinate) -> (r:
    CardChoice)
    ensures
        r == card_choice(hand@, power, slot, player),
{
    if slot >= hand.len() {
        return CardChoice::Locked;
    }
    match hand[slot] {
        None => CardChoice::Empty,
        Some(card) => {
            if power < card.cost() {
                CardChoice::NotEnoughPower
            } else {
                match card {
                    Card::Bump | Card::Spark => CardChoice::Direction,
                    Card::Blink => CardChoice::Location(player),
                    Card::Heal | Card::Clog | Card::Parasite | Card::Drain => CardChoice::Confirm,
                }
            }
        },
    }
}

/// Whether playing `card` burns it.
pub open spec fn burns(card: Card) -> bool {
    card == Card::Parasite || card == Card::Drain
}

/// `count` copies of `card` after `cards`.
pub open spec fn with_copies(cards: Seq<Card>, card: Card, count: nat) -> Seq<Card>
    decreases count,
{
    if count == 0 {
        cards
    } else {
        with_copies(cards, card, (count - 1) as nat).push(card)
    }
}

/// Puts `count` copies of `card` at the end of `cards`.
pub fn push_copies(cards: &mut Vec<Card>, card: Card, count: usize)
    ensures
        final(cards)@ == with_copies(old(cards)@, card, count as nat),
{
    let mut i: usize = 0;
    while i < count
        invariant
            i <= count,
            cards@ == with_copies(old(cards)@, card, i as nat),
        decreases count - i,
    {
        cards.push(card);
        i += 1;
    }
}

/// The deck a first level starts with: five sparks, six bumps, five heals
/// and four blinks.
pub open spec fn initial_deck() -> Seq<Card> {
    with_copies(
        with_copies(
            with_copies(with_copies(Seq::empty(), Card::Spark, 5), Card::Bump, 6),
            Card::Heal,
            5,
        ),
        Card::Blink,
        4,
    )
}

/// Puts the cards of `more` at the end of `cards`.
pub fn append_cards(cards: &mut Vec<Card>, more: &Vec<Card>)
    ensures
        final(cards)@ == old(cards)@ + more@,
{
    let mut i: usize = 0;
    while i < more.len()
        invariant
            i <= more@.len(),
            cards@ == old(cards)@ + more@.take(i as int),
        decreases more@.len() - i,
    {
        cards.push(more[i]);
        proof {
            assert(more@.take(i + 1) =~= more@.take(i as int).push(more@[i as int]));
            assert(cards@ =~= old(cards)@ + more@.take(i + 1));
        }
        i += 1;
    }
    proof {
        assert(more@.take(i as int) == more@);
    }
}

/// The first position of `card` in `cards`, and the length where it is not there.
pub open spec fn first_card(cards: Seq<Card>, card: Card) -> int
    decreases cards.len(),
{
    if cards.len() == 0 {
        0
    } else if cards[0] == card {
        0
    } else {
        1 + first_card(cards.skip(1), card)
    }
}

/// Where none of the first `k` cards is `card` and the one at `k` is, `k`
/// is the first position of `card`.
pub proof fn lemma_first_card(cards: Seq<Card>, card: Card, k: int)
    requires
        0 <= k < cards.len(),
        forall|j: int| 0 <= j < k ==> cards[j] != card,
        cards[k] == card,
    ensures
        first_card(cards, card) == k,
    decreases k,
{
    if k > 0 {
        let rest = cards.skip(1);
        assert forall|j: int| 0 <= j < k - 1 implies rest[j] != card by {
            assert(rest[j] == cards[j + 1]);
        }
        lemma_first_card(rest, card, k - 1);
    }
}

/// The first position of `card` in `cards`.
pub fn position_of_card(cards: &Vec<Card>, card: Card) -> (r: Option<usize>)
    ensures
        r.is_some() == cards@.contains(card),
        r.is_some() ==> r.unwrap() < cards@.len() && cards@[r.unwrap() as int] == card
            && r.unwrap() == first_card(cards@, card),
{
    let mut i: usize = 0;
    while i < cards.len()
        invariant
            i <= cards@.len(),
            forall|j: int| 0 <= j < i ==> cards@[j] != card,
        decreases cards@.len() - i,
    {
        if cards[i] == card {
            proof {
                lemma_first_card(cards@, card, i as int);
            }
            return Some(i);
        }
        i += 1;
    }
    None
}

/// The cards of the hand, in the order of the slots.
pub open spec fn cards_in_hand(hand: Seq<Option<Card>>) -> Seq<Card>
    decreases hand.len(),
{
    if hand.len() == 0 {
        Seq::empty()
    } else {
        match hand.last() {
            Some(card) => cards_in_hand(hand.drop_last()).push(card),
            None => cards_in_hand(hand.drop_last()),
        }
    }
}

/// What drawing a hand leaves: each slot's card goes to the waste, in the
/// order of the slots, and each slot takes the card on top of the deck, as
/// long as there is one.
pub open spec fn hand_drawn(hand: Seq<Option<Card>>, deck: Seq<Card>, waste: Seq<Card>) -> (
    Seq<Option<Card>>,
    Seq<Card>,
    Seq<Card>,
)
    decreases hand.len(),
{
    if hand.len() == 0 {
        (hand, deck, waste)
    } else {
        let (h, d, w) = hand_drawn(hand.drop_last(), deck, waste);
        let wasted = match hand.last() {
            Some(card) => w.push(card),
            None => w,
        };
        if d.len() > 0 {
            (h.push(Some(d.last())), d.drop_last(), wasted)
        } else {
            (h.push(None), d, wasted)
        }
    }
}

/// Drawing a hand of empty slots moves cards from the deck to the hand and
/// loses none: the deck and the hand together hold what the deck held.
pub proof fn lemma_hand_drawn(hand: Seq<Option<Card>>, deck: Seq<Card>, waste: Seq<Card>)
    requires
        forall|k: int| 0 <= k < hand.len() ==> (#[trigger] hand[k]).is_none(),
    ensures
        hand_drawn(hand, deck, waste).0.len() == hand.len(),
        hand_drawn(hand, deck, waste).2 == waste,
        hand_drawn(hand, deck, waste).1.to_multiset().add(
            cards_in_hand(hand_drawn(hand, deck, waste).0).to_multiset(),
        ) == deck.to_multiset(),
    decreases hand.len(),
{
    broadcast use vstd::multiset::group_multiset_axioms;

    if hand.len() == 0 {
        let none = cards_in_hand(hand);
        assert forall|c: Card| none.to_multiset().count(c) == 0 by {
            vstd::seq_lib::to_multiset_contains(none, c);
        }
        assert(deck.to_multiset().add(cards_in_hand(hand).to_multiset())
            =~= deck.to_multiset());
    } else {
        let rest = hand.drop_last();
        assert forall|k: int| 0 <= k < rest.len() implies (#[trigger] rest[k]).is_none() by {
            assert(rest[k] == hand[k]);
        }
        lemma_hand_drawn(rest, deck, waste);
        let (h, d, w) = hand_drawn(rest, deck, waste);
        assert(hand.last() == hand[hand.len() - 1]);
        if d.len() > 0 {
            let drawn = h.push(Some(d.last()));
            assert(drawn.drop_last() =~= h);
            assert(drawn.last() == Some(d.last()));
            assert(cards_in_hand(drawn) == cards_in_hand(h).push(d.last()));
            vstd::seq_lib::to_multiset_build(cards_in_hand(h), d.last());
            assert(d =~= d.drop_last().push(d.last()));
            vstd::seq_lib::to_multiset_build(d.drop_last(), d.last());
            assert(d.drop_last().to_multiset().add(cards_in_hand(drawn).to_multiset())
                =~= d.to_multiset().add(cards_in_hand(h).to_multiset()));
        } else {
            let drawn = h.push(None);
            assert(drawn.drop_last() =~= h);
            assert(drawn.last() == None::<Card>);
            assert(cards_in_hand(drawn) == cards_in_hand(h));
        }
    }
}

/// The cards that an altar offers to take, in the order in which they are
/// listed.
pub open spec fn negative_cards_spec() -> Seq<Card> {
    seq![Card::Clog, Card::Parasite, Card::Drain]
}

/// The cards that a fountain offers, in the order in which they are
/// listed.
pub open spec fn positive_cards_spec() -> Seq<Card> {
    seq![Card::Bump, Card::Blink, Card::Heal, Card::Spark]
}

/// The cards that an altar offers to take.
pub fn negative_cards() -> (r: Vec<Card>)
    ensures
        r@ == negative_cards_spec(),
{
    let mut r: Vec<Card> = Vec::new();
    r.push(Card::Clog);
    r.push(Card::Parasite);
    r.push(Card::Drain);
    assert(r@ =~= negative_cards_spec());
    r
}

/// The cards that a fountain offers.
pub fn positive_cards() -> (r: Vec<Card>)
    ensures
        r@ == positive_cards_spec(),
{
    let mut r: Vec<Card> = Vec::new();
    r.push(Card::Bump);
    r.push(Card::Blink);
    r.push(Card::Heal);
    r.push(Card::Spark);
    assert(r@ =~= positive_cards_spec());
    r
}

/// Whether `chosen` can be a choice of `amount` of `items`: it holds as
/// many as were asked for, or all where there are fewer, and none more
/// often than `items` holds it.
pub open spec fn chosen_from<T>(chosen: Seq<T>, items: Seq<T>, amount: usize) -> bool {
    &&& chosen.len() == if amount <= items.len() {
        amount as nat
    } else {
        items.len()
    }
    &&& chosen.to_multiset().subset_of(items.to_multiset())
}

/// Picks `amount` of `items`, or all where there are fewer, with
/// `rand::seq::SliceRandom::choose_multiple`, which picks at places of the
/// slice that all differ. Whatever the generator gives, the choice is one
/// that [`chosen_from`] admits.
#[verifier::external_body]
pub(crate) fn choose_multiple<T: Copy>(
    items: &Vec<T>,
    amount: usize,
    rng: &mut rand_isaac::IsaacRng,
) -> (chosen: Vec<T>)
    ensures
        chosen_from(chosen@, items@, amount),
{
    rand::seq::SliceRandom::choose_multiple(items.as_slice(), rng, amount).cloned().collect()
}

/// Shuffles `cards` with `rand::seq::SliceRandom::shuffle`. Whatever the
/// generator gives, the cards are the same cards in some order.
#[verifier::external_body]
pub(crate) fn shuffle(cards: &mut Vec<Card>, rng: &mut rand_isaac::IsaacRng)
    ensures
        final(cards)@.to_multiset() == old(cards)@.to_multiset(),
{
    rand::seq::SliceRandom::shuffle(cards.as_mut_slice(), rng)
}

} // verus!
