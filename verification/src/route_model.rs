//! The decoded map-route data the parsers produce and the validator checks:
//! route predicates, cells, routing rules and stages.
use vstd::prelude::*;

verus! {

#[derive(Debug, Clone, Copy, PartialEq, Eq, Structural)]
pub enum RouteOperator {
    Eq,
    Gte,
    Lte,
}

#[derive(Debug, Clone, Copy, PartialEq, Eq, Structural)]
pub enum SpeedClass {
    Slow,
    Fast,
    FastPlus,
    Fastest,
}

/// A condition a fleet must meet for a routing rule to fire.
#[derive(Debug)]
pub enum RoutePredicate {
    Always,
    /// Text the parser could not read.
    Unknown { raw_text: String },
    /// Text that says the condition itself is not known.
    SourceUnknown { raw_text: String },
    And(Vec<RoutePredicate>),
    Or(Vec<RoutePredicate>),
    Not(Box<RoutePredicate>),
    FleetSize { op: RouteOperator, value: i64 },
    DrumCanisterCount { op: RouteOperator, value: i64 },
    LoS { formula: Option<String>, op: RouteOperator, value: i64 },
    Speed { class: SpeedClass },
    ContainsShipType { ship_types: Vec<i64> },
    ContainsShipId { ship_ids: Vec<i64> },
    ContainsShipSet { ship_types: Vec<i64>, ship_ids: Vec<i64> },
    OnlyShipTypes { ship_types: Vec<i64> },
    OnlyShipSet { ship_types: Vec<i64>, ship_ids: Vec<i64> },
    FlagshipShipType { ship_types: Vec<i64> },
    FlagshipShipId { ship_ids: Vec<i64> },
    ShipTypeCount { ship_types: Vec<i64>, op: RouteOperator, value: i64 },
    ShipSetCount { ship_types: Vec<i64>, ship_ids: Vec<i64>, op: RouteOperator, value: i64 },
    ShipSetSpeedCount {
        ship_types: Vec<i64>,
        ship_ids: Vec<i64>,
        speed_op: RouteOperator,
        speed_class: SpeedClass,
        op: RouteOperator,
        value: i64,
    },
    EquipmentCount { slotitem_types: Vec<i64>, op: RouteOperator, value: i64 },
    VisitedNode { cell_nos: Vec<i64>, visited: bool },
    VisitedNodeLabel { node_labels: Vec<String>, visited: bool },
}

/// One cell of a stage and the cells it connects to.
#[derive(Debug, Clone)]
pub struct MapCellDefinition {
    pub cell_no: i64,
    /// The colour the client draws the cell in.
    pub color_no: i64,
    pub event_id: i64,
    pub event_kind: i64,
    pub next_cells: Vec<i64>,
}

/// One enemy fleet a battle cell can field.
#[derive(Debug, Clone)]
pub struct EnemyComposition {
    pub comp_id: String,
    pub weight: i64,
    pub ship_ids: Vec<i64>,
}

/// The enemy of one battle cell.
#[derive(Debug, Clone)]
pub struct EnemyFleetDefinition {
    pub cell_no: i64,
    pub battle_kind: i64,
    pub formations: Vec<i64>,
    pub compositions: Vec<EnemyComposition>,
}

/// One variant of a map: its boss, its cells, and the enemies by cell
/// (cells ascending, each once).
#[derive(Debug, Clone)]
pub struct MapVariantDefinition {
    pub variant_key: String,
    pub boss_cell_no: i64,
    pub cells: Vec<MapCellDefinition>,
    pub enemy_fleets: Vec<EnemyFleetDefinition>,
}

/// A routing rule: from a cell to one of its next cells, under a predicate.
#[derive(Debug)]
pub struct RouteRule {
    pub from_cell_no: i64,
    pub to_cell_no: i64,
    pub priority: i64,
    pub predicate: RoutePredicate,
    pub raw_text: String,
}

/// One stage (variant) of a map: its cells and, per departing cell, the rules
/// that choose the next cell. The rules are grouped by departing cell in
/// ascending order of cell number, each cell once, as a sorted map would hold them.
#[derive(Debug)]
pub struct MapStageDefinition {
    pub cells: Vec<MapCellDefinition>,
    pub routing_rules: Vec<(i64, Vec<RouteRule>)>,
}

impl MapStageDefinition {
    /// The rule groups are keyed by strictly ascending departing cells, so
    /// each cell has one group, as in a sorted map.
    pub open spec fn rules_keyed(&self) -> bool {
        forall|a: int, b: int|
            0 <= a < b < self.routing_rules@.len() ==> (#[trigger] self.routing_rules@[a]).0
                < (#[trigger] self.routing_rules@[b]).0
    }

    /// The cell numbers of the stage.
    pub open spec fn cell_nos(&self) -> Set<i64> {
        Set::new(|n: i64| exists|i: int| 0 <= i < self.cells@.len() && self.cells@[i].cell_no == n)
    }

    /// Index of the first cell with number `n`.
    pub open spec fn cell_index(&self, n: i64) -> Option<int> {
        if exists|i: int| 0 <= i < self.cells@.len() && self.cells@[i].cell_no == n {
            Some(
                choose|i: int|
                    0 <= i < self.cells@.len() && self.cells@[i].cell_no == n && forall|j: int|
                        0 <= j < i ==> self.cells@[j].cell_no != n,
            )
        } else {
            None
        }
    }

    /// The first cell with number `cell_no`, if the stage has one.
    pub fn cell(&self, cell_no: i64) -> (r: Option<&MapCellDefinition>)
        ensures
            match self.cell_index(cell_no) {
                Some(i) => r == Some(&self.cells@[i]),
                None => r.is_none(),
            },
    {
        let mut i: usize = 0;
        while i < self.cells.len()
            invariant
                i <= self.cells@.len(),
                forall|j: int| 0 <= j < i ==> self.cells@[j].cell_no != cell_no,
            decreases self.cells@.len() - i,
        {
            if self.cells[i].cell_no == cell_no {
                proof {
                    let c = choose|k: int|
                        0 <= k < self.cells@.len() && self.cells@[k].cell_no == cell_no && forall|
                            j: int,
                        | 0 <= j < k ==> self.cells@[j].cell_no != cell_no;
                    assert(0 <= i < self.cells@.len() && self.cells@[i as int].cell_no == cell_no);
                    if c < i {
                    } else if c > i {
                        assert(self.cells@[i as int].cell_no != cell_no);
                    }
                }
                return Some(&self.cells[i]);
            }
            i += 1;
        }
        None
    }
}

} // verus!
