use circuit_pool::instruction::{Instruction, Operation, OperationPool, Unit};
use circuit_pool::util::pool::PoolError;

struct Hadamard {
    params: Vec<u64>,
    duration: Option<u64>,
    unit: Unit,
}

impl Operation for Hadamard {
    fn params(&self) -> &Vec<u64> {
        &self.params
    }

    fn set_params(&mut self, _params: Vec<u64>) {}

    fn duration(&self) -> Option<u64> {
        self.duration
    }

    fn set_duration(&mut self, duration: Option<u64>) {
        self.duration = duration;
    }

    fn unit(&self) -> Unit {
        self.unit
    }

    fn set_unit(&mut self, unit: Unit) {
        self.unit = unit;
    }
}

struct Rotation {
    angle: Vec<u64>,
    wide: [u64; 32],
}

impl Operation for Rotation {
    fn params(&self) -> &Vec<u64> {
        &self.angle
    }

    fn set_params(&mut self, params: Vec<u64>) {
        self.angle = params;
    }

    fn duration(&self) -> Option<u64> {
        Some(self.wide[0])
    }

    fn set_duration(&mut self, duration: Option<u64>) {
        self.wide[0] = duration.unwrap_or(0);
    }

    fn unit(&self) -> Unit {
        Unit::DT
    }

    fn set_unit(&mut self, _unit: Unit) {}
}

#[test]
fn operations_of_two_kinds_share_one_pool() {
    let quarter_turn = std::f64::consts::FRAC_PI_2.to_bits();
    let mut pool = OperationPool::new(64).unwrap();
    let hadamard = pool
        .add(Box::new(Hadamard { params: vec![], duration: None, unit: Unit::DT }))
        .unwrap();
    let rotation = pool.add(Box::new(Rotation { angle: vec![quarter_turn], wide: [160; 32] })).unwrap();
    assert!(hadamard != rotation);
    assert_eq!(
        rotation.pointer() - hadamard.pointer(),
        std::mem::size_of::<Box<dyn Operation>>()
    );
    assert_eq!(pool.len(), 2);
    assert_eq!(pool.get(hadamard).params(), &Vec::<u64>::new());
    assert_eq!(pool.get(hadamard).duration(), None);
    assert_eq!(pool.get(rotation).params(), &vec![quarter_turn]);
    assert_eq!(f64::from_bits(pool.get(rotation).params()[0]), std::f64::consts::FRAC_PI_2);
    assert_eq!(pool.get(rotation).duration(), Some(160));
    assert_eq!(pool.get(rotation).unit(), Unit::DT);
    assert!(pool.contains(hadamard));
    assert!(pool.contains(rotation));
}

#[test]
fn an_operation_pool_is_full_when_no_pointer_fits() {
    let pointer = std::mem::size_of::<Box<dyn Operation>>();
    let mut pool = OperationPool::new(2 * pointer + 1).unwrap();
    let first = pool.add(Box::new(Instruction::new(vec![1], None, Unit::DT))).unwrap();
    let second = pool.add(Box::new(Instruction::new(vec![2], Some(3), Unit::DT))).unwrap();
    let third = pool.add(Box::new(Instruction::new(vec![4], None, Unit::DT)));
    assert!(matches!(third, Err(PoolError::ArenaFull)));
    assert_eq!(pool.len(), 2);
    assert_eq!(pool.get(first).params(), &vec![1]);
    assert_eq!(pool.get(second).params(), &vec![2]);
    assert_eq!(pool.get(second).duration(), Some(3));
}

#[test]
fn an_operation_pool_that_cannot_be_reserved_is_an_error() {
    assert!(matches!(OperationPool::new(usize::MAX), Err(PoolError::Reservation)));
}

#[test]
fn an_instruction_gives_back_what_it_was_made_of() {
    let half = 0.5f64.to_bits();
    let instruction = Instruction::new(vec![half], Some(2.0f64.to_bits()), Unit::DT);
    assert_eq!(instruction.params(), &vec![half]);
    assert_eq!(instruction.duration(), Some(2.0f64.to_bits()));
    assert_eq!(instruction.unit(), Unit::DT);
}

#[test]
fn setting_one_part_of_an_instruction_leaves_the_others() {
    let mut instruction = Instruction::new(vec![1, 2], Some(3), Unit::DT);
    instruction.set_params(vec![4]);
    assert_eq!(instruction.params(), &vec![4]);
    assert_eq!(instruction.duration(), Some(3));
    instruction.set_duration(None);
    assert_eq!(instruction.params(), &vec![4]);
    assert_eq!(instruction.duration(), None);
    instruction.set_unit(Unit::DT);
    assert_eq!(instruction.unit(), Unit::DT);
    assert_eq!(instruction.params(), &vec![4]);
}

#[test]
fn instructions_are_equal_when_their_parts_are() {
    let instruction = Instruction::new(vec![1, 2], Some(3), Unit::DT);
    assert!(instruction == instruction.clone());
    assert!(instruction == Instruction::new(vec![1, 2], Some(3), Unit::DT));
    assert!(instruction != Instruction::new(vec![1], Some(3), Unit::DT));
    assert!(instruction != Instruction::new(vec![1, 2], None, Unit::DT));
    assert!(instruction != Instruction::new(vec![1, 3], Some(3), Unit::DT));
}
