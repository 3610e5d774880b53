//! Ship classes: the catalogue's discrete part and the weighted draw.

use vstd::prelude::*;

verus! {

/// A quantity that may differ between the surface and the submerged state.
#[derive(Clone, Copy, Debug)]
pub enum Variable<T> {
    Surface(T),
    /// Surface value, then submerged value.
    Submersible(T, T),
}

impl<T: Copy> Variable<T> {
    /// The value that applies in the given state.
    pub open spec fn value(self, submerged: bool) -> T {
        match self {
            Variable::Surface(x) => x,
            Variable::Submersible(x, y) => if submerged { y } else { x },
        }
    }

    pub fn get_value(&self, submerged: bool) -> (value: T)
        ensures
            value == self.value(submerged),
    {
        match self {
            Variable::Surface(x) => *x,
            Variable::Submersible(x, y) => {
                if submerged {
                    *y
                } else {
                    *x
                }
            },
        }
    }
}

/// A special action that a ship class may offer.
#[derive(Clone, Copy, Debug, PartialEq, Eq, Structural)]
pub enum Action {
    Submerge,
}

/// The classes of ship that the catalogue holds, in catalogue order.
#[derive(Clone, Copy, Debug, PartialEq, Eq, Structural)]
pub enum ShipType {
    Escort,
    Destroyer,
    LightCruiser,
    HeavyCruiser,
    BattleCruiser,
    SlowBattleship,
    FastBattleship,
    Bird,
    PTBoat,
    Liberty,
    UBoat,
}

/// Every class, in catalogue order.
pub open spec fn all_ship_types() -> Seq<ShipType> {
    seq![
        ShipType::Escort,
        ShipType::Destroyer,
        ShipType::LightCruiser,
        ShipType::HeavyCruiser,
        ShipType::BattleCruiser,
        ShipType::SlowBattleship,
        ShipType::FastBattleship,
        ShipType::Bird,
        ShipType::PTBoat,
        ShipType::Liberty,
        ShipType::UBoat,
    ]
}

/// The relative chance of each class in a draw, in catalogue order.
pub open spec fn all_weights() -> Seq<usize> {
    seq![15usize, 25usize, 4usize, 3usize, 1usize, 1usize, 1usize, 1usize, 10usize, 10usize, 10usize]
}

impl ShipType {
    /// The class's place in the catalogue.
    pub open spec fn index(self) -> int {
        match self {
            ShipType::Escort => 0,
            ShipType::Destroyer => 1,
            ShipType::LightCruiser => 2,
            ShipType::HeavyCruiser => 3,
            ShipType::BattleCruiser => 4,
            ShipType::SlowBattleship => 5,
            ShipType::FastBattleship => 6,
            ShipType::Bird => 7,
            ShipType::PTBoat => 8,
            ShipType::Liberty => 9,
            ShipType::UBoat => 10,
        }
    }

    /// The class's relative chance in a draw.
    pub open spec fn spec_weight(self) -> usize {
        all_weights()[self.index()]
    }

    /// Whether the class has a submerged state.
    pub open spec fn spec_submersible(self) -> bool {
        self == ShipType::UBoat
    }

    /// The special actions of the class, in the order in which a client numbers them.
    pub open spec fn spec_actions(self) -> Seq<Action> {
        if self.spec_submersible() {
            seq![Action::Submerge]
        } else {
            Seq::empty()
        }
    }

    /// The identifier of the picture that clients draw for the class.
    pub open spec fn spec_texture(self) -> usize {
        match self {
            ShipType::Escort => 1,
            ShipType::Destroyer => 2,
            ShipType::LightCruiser => 3,
            ShipType::HeavyCruiser => 4,
            ShipType::BattleCruiser => 5,
            ShipType::SlowBattleship => 6,
            ShipType::FastBattleship => 6,
            ShipType::Bird => 7,
            ShipType::PTBoat => 9,
            ShipType::Liberty => 10,
            ShipType::UBoat => 11,
        }
    }

    pub fn weight(self) -> (w: usize)
        ensures
            w == self.spec_weight(),
            w > 0,
    {
        match self {
            ShipType::Escort => 15,
            ShipType::Destroyer => 25,
            ShipType::LightCruiser => 4,
            ShipType::HeavyCruiser => 3,
            ShipType::BattleCruiser => 1,
            ShipType::SlowBattleship => 1,
            ShipType::FastBattleship => 1,
            ShipType::Bird => 1,
            ShipType::PTBoat => 10,
            ShipType::Liberty => 10,
            ShipType::UBoat => 10,
        }
    }

    pub fn is_submersible(self) -> (b: bool)
        ensures
            b == self.spec_submersible(),
    {
        match self {
            ShipType::UBoat => true,
            _ => false,
        }
    }

    pub fn actions(self) -> (list: Vec<Action>)
        ensures
            list@ == self.spec_actions(),
            (list.len() > 0) == self.spec_submersible(),
    {
        let mut list: Vec<Action> = Vec::new();
        if self.is_submersible() {
            list.push(Action::Submerge);
        }
        assert(list@ =~= self.spec_actions());
        list
    }

    pub fn texture(self) -> (id: usize)
        ensures
            id == self.spec_texture(),
    {
        match self {
            ShipType::Escort => 1,
            ShipType::Destroyer => 2,
            ShipType::LightCruiser => 3,
            ShipType::HeavyCruiser => 4,
            ShipType::BattleCruiser => 5,
            ShipType::SlowBattleship => 6,
            ShipType::FastBattleship => 6,
            ShipType::Bird => 7,
            ShipType::PTBoat => 9,
            ShipType::Liberty => 10,
            ShipType::UBoat => 11,
        }
    }
}

/// Every class, in catalogue order.
pub fn ship_types() -> (types: Vec<ShipType>)
    ensures
        types@ == all_ship_types(),
{
    let types = vec![
        ShipType::Escort,
        ShipType::Destroyer,
        ShipType::LightCruiser,
        ShipType::HeavyCruiser,
        ShipType::BattleCruiser,
        ShipType::SlowBattleship,
        ShipType::FastBattleship,
        ShipType::Bird,
        ShipType::PTBoat,
        ShipType::Liberty,
        ShipType::UBoat,
    ];
    assert(types@ =~= all_ship_types());
    types
}

/// The weight of each listed class, in the same order.
pub fn weights_of(types: &Vec<ShipType>) -> (weights: Vec<usize>)
    ensures
        weights.len() == types.len(),
        forall|i: int| 0 <= i < types.len() ==> weights[i] == (#[trigger] types[i]).spec_weight(),
{
    let mut weights: Vec<usize> = Vec::new();
    let mut i: usize = 0;
    while i < types.len()
        invariant
            i <= types.len(),
            weights.len() == i,
            forall|j: int| 0 <= j < i ==> weights[j] == (#[trigger] types[j]).spec_weight(),
        decreases types.len() - i,
    {
        weights.push(types[i].weight());
        i += 1;
    }
    weights
}

/// What a weighted draw may return: nothing, or an item that is listed with a
/// weight above zero.
pub open spec fn drawable(types: Seq<ShipType>, weights: Seq<usize>, drawn: Option<ShipType>) -> bool {
    match drawn {
        Some(t) => exists|i: int| 0 <= i < types.len() && i < weights.len() && types[i] == t && weights[i] > 0,
        None => true,
    }
}

/// Whether no weight is above zero.
pub open spec fn no_weight(weights: Seq<usize>) -> bool {
    forall|i: int| 0 <= i < weights.len() ==> weights[i] == 0
}

/// Calls `random_pick::pick_from_slice` on a list of classes and as many
/// weights. Believed of it: what comes back, if anything, stands in the list
/// at a place whose weight is above zero; nothing comes back where the list
/// is empty or no weight is above zero; and a list of one class with a
/// weight above zero gives that class, for which the source draws from a
/// range of one place. Of a longer list, which item comes back is up to
/// chance, and so is whether one comes back at all: the draw may fail on a
/// rounding error at the very top of its range.
#[verifier::external_body]
fn pick_from_slice(types: &Vec<ShipType>, weights: &Vec<usize>) -> (drawn: Option<ShipType>)
    requires
        types.len() == weights.len(),
        types.len() <= MAX_DRAW,
    ensures
        drawable(types@, weights@, drawn),
        types.len() == 0 || no_weight(weights@) ==> drawn is None,
        one_to_draw(types@, weights@) ==> drawn == Some(types[0]),
{
    random_pick::pick_from_slice(types.as_slice(), weights.as_slice()).copied()
}

/// Draws one of `types` at random, each with the chance that its weight
/// gives it. Gives nothing where the two lists differ in length or are
/// longer than `MAX_DRAW`, and for certain the one class of a list of one
/// whose weight is above zero.
pub fn pick_ship_type(types: &Vec<ShipType>, weights: &Vec<usize>) -> (drawn: Option<ShipType>)
    ensures
        drawable(types@, weights@, drawn),
        nothing_to_draw(types@, weights@) ==> drawn is None,
        one_to_draw(types@, weights@) ==> drawn == Some(types[0]),
{
    if types.len() != weights.len() || types.len() as u64 > MAX_DRAW {
        None
    } else {
        pick_from_slice(types, weights)
    }
}

/// Draws a class from the whole catalogue by the catalogue's weights: any
/// class may come back, or nothing where the draw fails.
pub fn get_random_type() -> (drawn: Option<ShipType>)
    ensures
        drawable(all_ship_types(), all_weights(), drawn),
{
    let types = ship_types();
    let weights = weights_of(&types);
    assert(weights@ =~= all_weights()) by {
        assert forall|i: int| 0 <= i < 11 implies weights@[i] == all_weights()[i] by {
            assert(weights[i] == types[i].spec_weight());
        }
    }
    pick_ship_type(&types, &weights)
}

/// The longest list that a draw takes: beyond it the draw, which counts
/// places in double precision, can no longer tell neighbouring places apart.
pub const MAX_DRAW: u64 = 0x20_0000_0000_0000;

/// Whether a draw from these lists gives nothing whatever the chance: the
/// lists differ in length, are empty or longer than `MAX_DRAW`, or hold no
/// weight above zero.
pub open spec fn nothing_to_draw(types: Seq<ShipType>, weights: Seq<usize>) -> bool {
    types.len() != weights.len() || types.len() > MAX_DRAW || types.len() == 0 || no_weight(
        weights,
    )
}

/// Whether a draw from these lists leaves nothing to chance: one class, with
/// a weight above zero.
pub open spec fn one_to_draw(types: Seq<ShipType>, weights: Seq<usize>) -> bool {
    types.len() == 1 && weights.len() == 1 && weights[0] > 0
}


/// A class is submersible exactly if it offers a special action.
pub proof fn lemma_submersible_iff_actions(t: ShipType)
    ensures
        t.spec_submersible() <==> t.spec_actions().len() > 0,
{
}

} // verus!
