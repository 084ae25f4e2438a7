use vstd::prelude::*;

use crate::factory_game::conveyor::Conveyor;
use crate::factory_game::helpers::{
    flip_facing, is_single, next_of, opposite_of, previous_of, ConveyorDirection, TileFlip,
};
use crate::factory_game::payload_handler::PayloadHandler;
use crate::factory_game::payloads::{
    advanced, entities_of, has_room, ready_payload, spacing_of, without, LineModel,
    PayloadTransportLine, RequestPayloadTransferEvent, TransportedPayload, MU_ONE,
};
use crate::factory_game::interaction::{PlaceTile, Tool};
use crate::sprite_sheet::GameSprite;
use crate::tiles::TilePos;

verus! {

/// An arithmetic operation an operator tile applies to two numbers.
#[derive(PartialEq, Eq, Structural, Clone, Copy, Debug)]
pub enum Operator {
    Plus,
    Multiply,
}

/// The number a payload carries.
#[derive(PartialEq, Eq, Structural, Clone, Copy, Debug)]
pub struct Operand(pub u32);

/// The result of applying `op` to `left` and `right`; a result too large for
/// a `u32` becomes 1.
pub open spec fn operation_result(op: Operator, left: u32, right: u32) -> u32 {
    match op {
        Operator::Plus => if left + right <= u32::MAX {
            (left + right) as u32
        } else {
            1
        },
        Operator::Multiply => if left * right <= u32::MAX {
            (left * right) as u32
        } else {
            1
        },
    }
}

/// The sprite of an operator.
pub open spec fn operator_sprite(op: Operator) -> GameSprite {
    match op {
        Operator::Plus => GameSprite::OperatorPlus,
        Operator::Multiply => GameSprite::OperatorMultiply,
    }
}

impl Operator {
    /// The sprite of the operator.
    pub fn sprite(&self) -> (r: GameSprite)
        ensures
            r == operator_sprite(*self),
    {
        match self {
            Operator::Plus => GameSprite::OperatorPlus,
            Operator::Multiply => GameSprite::OperatorMultiply,
        }
    }

    /// Applies the operator to two operands; a result that overflows a `u32`
    /// becomes 1.
    pub fn generate_operand(&self, left: &Operand, right: &Operand) -> (r: Operand)
        ensures
            r.0 == operation_result(*self, left.0, right.0),
    {
        match self {
            Operator::Plus => Operand(
                match left.0.checked_add(right.0) {
                    Some(v) => v,
                    None => 1,
                },
            ),
            Operator::Multiply => Operand(
                match left.0.checked_mul(right.0) {
                    Some(v) => v,
                    None => 1,
                },
            ),
        }
    }
}

/// The operators compute the sum and the product of their operands whenever
/// that fits in a `u32`, and 1 when it does not: so 0 is the unit of
/// addition and 1 the unit of multiplication, and multiplying by 0 gives 0.
pub proof fn law_operations_are_arithmetic(a: u32, b: u32)
    ensures
        a + b <= u32::MAX ==> operation_result(Operator::Plus, a, b) == a + b,
        a + b > u32::MAX ==> operation_result(Operator::Plus, a, b) == 1,
        a * b <= u32::MAX ==> operation_result(Operator::Multiply, a, b) == a * b,
        a * b > u32::MAX ==> operation_result(Operator::Multiply, a, b) == 1,
        operation_result(Operator::Plus, 0, b) == b,
        operation_result(Operator::Multiply, 1, b) == b,
        operation_result(Operator::Multiply, a, 1) == a,
        operation_result(Operator::Multiply, 0, b) == 0,
{
    assert(1 * b == b && a * 1 == a && 0 * b == 0) by (nonlinear_arith);
}

/// Both operators give the same result whichever way round their operands
/// come.
pub proof fn law_operation_commutes(op: Operator, a: u32, b: u32)
    ensures
        operation_result(op, a, b) == operation_result(op, b, a),
{
    assert(a * b == b * a) by (nonlinear_arith);
}

/// The operator tool: places operators of one kind sending results in
/// direction `direction`.
#[derive(Clone, Copy, Debug)]
pub struct OperatorsTool {
    pub operator: Operator,
    pub direction: ConveyorDirection,
}

/// A click with an operator tool: place an operator `.1` sending results in
/// direction `.2` at tile `.0`.
#[derive(Clone, Copy, Debug)]
pub struct PlaceOperatorEvent(pub TilePos, pub Operator, pub ConveyorDirection);

impl OperatorsTool {
    /// A tool for `operator`, facing north.
    pub fn new(operator: Operator) -> (r: Self)
        ensures
            r.operator == operator,
            r.direction == ConveyorDirection::North,
    {
        OperatorsTool { operator, direction: ConveyorDirection::North }
    }

    /// The addition tool.
    pub fn plus() -> (r: Self)
        ensures
            r.operator == Operator::Plus,
            r.direction == ConveyorDirection::North,
    {
        Self::new(Operator::Plus)
    }

    /// The multiplication tool.
    pub fn multiply() -> (r: Self)
        ensures
            r.operator == Operator::Multiply,
            r.direction == ConveyorDirection::North,
    {
        Self::new(Operator::Multiply)
    }

}

impl Tool for OperatorsTool {
    /// The tool's preview: the operator's sprite facing the tool's direction.
    fn get_sprite_flip(&self) -> (r: (GameSprite, TileFlip))
        ensures
            r == (operator_sprite(self.operator), flip_facing(self.direction)),
    {
        (self.operator.sprite(), self.direction.tile_flip())
    }

    /// Turns the tool clockwise.
    fn next_variant(&mut self)
        ensures
            *final(self) == (OperatorsTool { direction: next_of(old(self).direction), ..*old(self) }),
    {
        self.direction = self.direction.next();
    }

    /// A click at `tile_pos`: place the tool's operator there.
    fn execute(&self, tile_pos: &TilePos) -> (r: PlaceTile)
        ensures
            r == PlaceTile::Operator(PlaceOperatorEvent(*tile_pos, self.operator, self.direction)),
    {
        PlaceTile::Operator(PlaceOperatorEvent(*tile_pos, self.operator, self.direction))
    }
}

/// What an operator tile holds.
pub struct OperatorTileModel {
    pub operator: Operator,
    pub left_operand: Option<u64>,
    pub right_operand: Option<u64>,
    pub line: PayloadTransportLine,
}

/// A tile that takes one payload from its left and one from its right,
/// combines their numbers and sends the result on.
#[derive(Debug)]
pub struct OperatorTile {
    operator: Operator,
    left_operand: Option<u64>,
    right_operand: Option<u64>,
    payload_transport_line: PayloadTransportLine,
}

impl View for OperatorTile {
    type V = OperatorTileModel;

    closed spec fn view(&self) -> OperatorTileModel {
        OperatorTileModel {
            operator: self.operator,
            left_operand: self.left_operand,
            right_operand: self.right_operand,
            line: self.payload_transport_line,
        }
    }
}

impl OperatorTile {
    /// The output lane is well formed and has an output.
    pub open spec fn wf(&self) -> bool {
        self@.line.wf() && self@.line@.output is Some
    }

    /// An empty operator tile sending results in direction `direction` on a
    /// lane of capacity 2.
    pub fn new(operator: Operator, direction: ConveyorDirection) -> (r: Self)
        ensures
            r.wf(),
            r@.operator == operator,
            r@.left_operand is None,
            r@.right_operand is None,
            r@.line@ == (LineModel { payloads: Seq::empty(), output: Some(direction), capacity: 2 }),
    {
        OperatorTile {
            operator,
            left_operand: None,
            right_operand: None,
            payload_transport_line: PayloadTransportLine::new(direction, 2),
        }
    }

    /// The sprite of the tile's operator.
    pub fn sprite(&self) -> (r: GameSprite)
        ensures
            r == operator_sprite(self@.operator),
    {
        self.operator.sprite()
    }

    /// Moves the results on by `t`; returns the result then ready to leave.
    pub fn update(&mut self, t: u32) -> (r: Option<u64>)
        requires
            old(self).wf(),
        ensures
            final(self).wf(),
            final(self)@.operator == old(self)@.operator,
            final(self)@.left_operand == old(self)@.left_operand,
            final(self)@.right_operand == old(self)@.right_operand,
            final(self)@.line@ == (LineModel {
                payloads: advanced(old(self)@.line@.payloads, t as int, spacing_of(old(self)@.line@.capacity)),
                ..old(self)@.line@
            }),
            r == ready_payload(final(self)@.line@.payloads),
    {
        self.payload_transport_line.update(t)
    }

    /// The left and the right operand, where they have arrived.
    pub fn operands(&self) -> (r: (Option<u64>, Option<u64>))
        ensures
            r == (self@.left_operand, self@.right_operand),
    {
        (self.left_operand, self.right_operand)
    }

    /// The direction results leave in.
    pub fn output_direction(&self) -> (r: ConveyorDirection)
        requires
            self.wf(),
        ensures
            self@.line@.output == Some(r),
    {
        match self.payload_transport_line.output_direction() {
            Some(d) => d,
            None => ConveyorDirection::North,
        }
    }

    /// Combines the two operands once both are there: a payload holding the
    /// operator's result of `left` and `right` (the numbers of the two
    /// operands) is made with `spawn` and put halfway along the output lane,
    /// if there is room for it; then the two operands are used up and
    /// returned, to be removed.
    pub fn generate_new_payload<F: FnOnce(Operand) -> u64>(
        &mut self,
        left: Operand,
        right: Operand,
        spawn: F,
    ) -> (r: Option<(u64, u64)>)
        requires
            old(self).wf(),
            old(self)@.left_operand is Some,
            old(self)@.right_operand is Some,
            spawn.requires((Operand(operation_result(old(self)@.operator, left.0, right.0)),)),
        ensures
            final(self).wf(),
            final(self)@.operator == old(self)@.operator,
            if has_room(old(self)@.line@, (MU_ONE / 2) as int) {
                &&& r == Some((old(self)@.left_operand->0, old(self)@.right_operand->0))
                &&& final(self)@.left_operand is None
                &&& final(self)@.right_operand is None
                &&& exists|p: u64|
                    {
                        &&& spawn.ensures((Operand(operation_result(old(self)@.operator, left.0, right.0)),), p)
                        &&& final(self)@.line@ == (LineModel {
                            payloads: old(self)@.line@.payloads.push(
                                TransportedPayload {
                                    entity: p,
                                    from: opposite_of(old(self)@.line@.output->0),
                                    mu: MU_ONE / 2,
                                },
                            ),
                            ..old(self)@.line@
                        })
                    }
            } else {
                &&& r is None
                &&& final(self)@ == old(self)@
            },
    {
        let output_direction = self.output_direction();
        let new_operand = self.operator.generate_operand(&left, &right);
        let made = self.payload_transport_line.try_transfer_onto_with_mu(
            output_direction.opposite(),
            MU_ONE / 2,
            move || -> (p: u64) requires spawn.requires((new_operand,)) ensures spawn.ensures((new_operand,), p) { spawn(new_operand) },
        );
        match made {
            Some(p) => {
                let l = match self.left_operand {
                    Some(e) => e,
                    None => 0,
                };
                let r = match self.right_operand {
                    Some(e) => e,
                    None => 0,
                };
                self.left_operand = None;
                self.right_operand = None;
                Some((l, r))
            },
            None => None,
        }
    }
}

impl PayloadHandler for OperatorTile {
    open spec fn handler_wf(&self) -> bool {
        self.wf()
    }

    /// An operator tile needs a conveyor with a single output.
    open spec fn handles(&self, conveyor: Conveyor) -> bool {
        is_single(conveyor@.outputs)
    }

    open spec fn releases(&self) -> bool {
        true
    }

    open spec fn took(&self, after: Self, conveyor: Conveyor, request: RequestPayloadTransferEvent, r: Option<u64>) -> bool {
        &&& after@.operator == self@.operator
        &&& after@.line == self@.line
        &&& {
            let incoming = opposite_of(request.direction);
            let out = choose|d: ConveyorDirection| conveyor@.outputs == Set::empty().insert(d);
            if incoming == previous_of(out) && self@.left_operand is None {
                &&& r == Some(request.payload)
                &&& after@.left_operand == Some(request.payload)
                &&& after@.right_operand == self@.right_operand
            } else if incoming == next_of(out) && self@.right_operand is None {
                &&& r == Some(request.payload)
                &&& after@.right_operand == Some(request.payload)
                &&& after@.left_operand == self@.left_operand
            } else {
                &&& r is None
                &&& after@ == self@
            }
        }
    }

    open spec fn gave_up(&self, after: Self, payload: u64) -> bool {
        &&& after@.operator == self@.operator
        &&& after@.left_operand == self@.left_operand
        &&& after@.right_operand == self@.right_operand
        &&& after@.line@ == (LineModel { payloads: without(self@.line@.payloads, payload), ..self@.line@ })
    }

    fn handles_conveyor(&self, conveyor: &Conveyor) -> (r: bool) {
        let outputs = conveyor.outputs().iter();
        let r = outputs.len() == 1;
        proof {
            crate::factory_game::helpers::lemma_select_single(conveyor@.outputs);
        }
        r
    }

    fn releases_payloads(&self) -> (r: bool) {
        true
    }

    /// Takes a payload arriving from the left of the output as the left
    /// operand, or one arriving from the right as the right operand, if that
    /// operand is still missing.
    fn try_transfer(&mut self, self_conveyor: &Conveyor, request: &RequestPayloadTransferEvent) -> (r:
        Option<u64>)
        ensures
            final(self)@.operator == old(self)@.operator,
            final(self)@.line == old(self)@.line,
            ({
                let incoming = opposite_of(request.direction);
                let out = choose|d: ConveyorDirection| self_conveyor@.outputs == Set::empty().insert(d);
                if incoming == previous_of(out) && old(self)@.left_operand is None {
                    &&& r == Some(request.payload)
                    &&& final(self)@.left_operand == Some(request.payload)
                    &&& final(self)@.right_operand == old(self)@.right_operand
                } else if incoming == next_of(out) && old(self)@.right_operand is None {
                    &&& r == Some(request.payload)
                    &&& final(self)@.right_operand == Some(request.payload)
                    &&& final(self)@.left_operand == old(self)@.left_operand
                } else {
                    &&& r is None
                    &&& final(self)@ == old(self)@
                }
            }),
    {
        let incoming_direction = request.direction.opposite();
        let output = self_conveyor.output();
        proof {
            crate::factory_game::helpers::lemma_single_choice(self_conveyor@.outputs, output);
        }
        if incoming_direction == output.left() && self.left_operand.is_none() {
            self.left_operand = Some(request.payload);
            return Some(request.payload);
        } else if incoming_direction == output.right() && self.right_operand.is_none() {
            self.right_operand = Some(request.payload);
            return Some(request.payload);
        }
        None
    }

    /// Takes `payload` off the output lane.
    fn remove_payload(&mut self, payload: u64)
        ensures
            final(self)@.operator == old(self)@.operator,
            final(self)@.left_operand == old(self)@.left_operand,
            final(self)@.right_operand == old(self)@.right_operand,
            final(self)@.line@ == (LineModel { payloads: without(old(self)@.line@.payloads, payload), ..old(self)@.line@ }),
    {
        self.payload_transport_line.remove_payload(payload)
    }

    /// The results on the output lane, then the left and right operands.
    fn iter_payloads(&self) -> (r: Vec<u64>)
        ensures
            r@ == entities_of(self@.line@.payloads) + match self@.left_operand {
                Some(e) => seq![e],
                None => Seq::empty(),
            } + match self@.right_operand {
                Some(e) => seq![e],
                None => Seq::empty(),
            },
    {
        let mut r = self.payload_transport_line.iter_payloads();
        match self.left_operand {
            Some(e) => r.push(e),
            None => {},
        }
        match self.right_operand {
            Some(e) => r.push(e),
            None => {},
        }
        r
    }
}

impl PlaceOperatorEvent {
    /// The components of the new operator tile: the tile and a conveyor
    /// sending payloads in the tool's direction.
    pub fn configure_new_entity(&self) -> (r: (OperatorTile, Conveyor))
        ensures
            r.0.wf(),
            r.0@.operator == self.1,
            r.0@.left_operand is None,
            r.0@.right_operand is None,
            r.0@.line@ == (LineModel { payloads: Seq::empty(), output: Some(self.2), capacity: 2 }),
            r.1@.outputs == Set::empty().insert(self.2),
            r.1@.inputs == Set::<ConveyorDirection>::empty(),
    {
        (OperatorTile::new(self.1, self.2), Conveyor::from(self.2))
    }
}

/// The tile of a new operator: its sprite turned to face its output.
pub fn operator_tile(operator: &OperatorTile, conveyor: &Conveyor) -> (r: (GameSprite, TileFlip))
    requires
        is_single(conveyor@.outputs),
    ensures
        exists|d: ConveyorDirection|
            conveyor@.outputs == Set::empty().insert(d) && r == (operator_sprite(operator@.operator), flip_facing(d)),
{
    (operator.sprite(), conveyor.output().tile_flip())
}

} // verus!
