use vstd::prelude::*;

verus! {

/// One of the seven tetromino shapes.
#[derive(Debug, PartialEq, Eq, Structural, Hash, Clone, Copy)]
pub enum PieceType {
    S,
    Z,
    L,
    J,
    T,
    I,
    O,
}

/// One of the four rotational states of a piece.
///
/// The states form a cyclic group: four clockwise turns are the identity,
/// a counterclockwise turn undoes a clockwise one, and `opposite` is two
/// clockwise turns.
#[derive(Debug, Clone, Copy)]
pub enum Orientation {
    North,
    East,
    South,
    West,
}

impl Orientation {
    /// The orientation one clockwise turn away from `self`.
    pub open spec fn spec_clockwise(self) -> Orientation {
        match self {
            Orientation::North => Orientation::East,
            Orientation::East => Orientation::South,
            Orientation::South => Orientation::West,
            Orientation::West => Orientation::North,
        }
    }

    /// The orientation one counterclockwise turn away from `self`.
    pub open spec fn spec_counterclockwise(self) -> Orientation {
        match self {
            Orientation::North => Orientation::West,
            Orientation::East => Orientation::North,
            Orientation::South => Orientation::East,
            Orientation::West => Orientation::South,
        }
    }

    /// The orientation two turns away from `self`.
    pub open spec fn spec_opposite(self) -> Orientation {
        self.spec_clockwise().spec_clockwise()
    }

    /// Returns the direction clockwise of `self`.
    pub fn clockwise(&self) -> (r: Self)
        ensures
            r == self.spec_clockwise(),
    {
        match self {
            Self::North => Self::East,
            Self::East => Self::South,
            Self::South => Self::West,
            Self::West => Self::North,
        }
    }

    /// Returns the direction counterclockwise of `self`.
    pub fn counterclockwise(&self) -> (r: Self)
        ensures
            r == self.spec_counterclockwise(),
    {
        match self {
            Self::North => Self::West,
            Self::East => Self::North,
            Self::South => Self::East,
            Self::West => Self::South,
        }
    }

    /// Returns the direction opposite of `self`.
    pub fn opposite(&self) -> (r: Self)
        ensures
            r == self.spec_opposite(),
    {
        match self {
            Self::North => Self::South,
            Self::East => Self::West,
            Self::South => Self::North,
            Self::West => Self::East,
        }
    }
}

/// Rotation is a cyclic group of order four: four clockwise (or
/// counterclockwise) turns are the identity, counterclockwise inverts
/// clockwise, and the opposite orientation is two clockwise turns.
///
/// Since a piece's cell mask is a function of its kind and orientation
/// alone, four turns also restore the mask.
pub proof fn lemma_rotation_cycle(o: Orientation)
    ensures
        o.spec_clockwise().spec_clockwise().spec_clockwise().spec_clockwise() == o,
        o.spec_counterclockwise().spec_counterclockwise().spec_counterclockwise().spec_counterclockwise()
            == o,
        o.spec_clockwise().spec_counterclockwise() == o,
        o.spec_counterclockwise().spec_clockwise() == o,
        o.spec_opposite().spec_opposite() == o,
{
}

impl PieceType {
    /// The positions of the piece's filled cells within its 4x4 bounding
    /// box, for a given orientation. A cell index `i` denotes row `i / 4`
    /// (0 = top) and column `i % 4` (0 = left) of the box. Every mask has
    /// exactly 4 entries, strictly ascending.
    pub open spec fn spec_mask(self, orientation: Orientation) -> Seq<u8> {
        match self {
            PieceType::I => match orientation {
                Orientation::North => seq![4u8, 5u8, 6u8, 7u8],
                Orientation::East => seq![2u8, 6u8, 10u8, 14u8],
                Orientation::South => seq![8u8, 9u8, 10u8, 11u8],
                Orientation::West => seq![1u8, 5u8, 9u8, 13u8],
            },
            PieceType::L => match orientation {
                Orientation::North => seq![2u8, 4u8, 5u8, 6u8],
                Orientation::East => seq![1u8, 5u8, 9u8, 10u8],
                Orientation::South => seq![4u8, 5u8, 6u8, 8u8],
                Orientation::West => seq![0u8, 1u8, 5u8, 9u8],
            },
            PieceType::J => match orientation {
                Orientation::North => seq![0u8, 4u8, 5u8, 6u8],
                Orientation::East => seq![1u8, 2u8, 5u8, 9u8],
                Orientation::South => seq![4u8, 5u8, 6u8, 10u8],
                Orientation::West => seq![1u8, 5u8, 8u8, 9u8],
            },
            PieceType::S => match orientation {
                Orientation::North => seq![1u8, 2u8, 4u8, 5u8],
                Orientation::East => seq![1u8, 5u8, 6u8, 10u8],
                Orientation::South => seq![5u8, 6u8, 8u8, 9u8],
                Orientation::West => seq![0u8, 4u8, 5u8, 9u8],
            },
            PieceType::Z => match orientation {
                Orientation::North => seq![0u8, 1u8, 5u8, 6u8],
                Orientation::East => seq![2u8, 5u8, 6u8, 9u8],
                Orientation::South => seq![4u8, 5u8, 9u8, 10u8],
                Orientation::West => seq![1u8, 4u8, 5u8, 8u8],
            },
            PieceType::T => match orientation {
                Orientation::North => seq![1u8, 4u8, 5u8, 6u8],
                Orientation::East => seq![1u8, 5u8, 6u8, 9u8],
                Orientation::South => seq![4u8, 5u8, 6u8, 9u8],
                Orientation::West => seq![1u8, 4u8, 5u8, 9u8],
            },
            PieceType::O => seq![1u8, 2u8, 5u8, 6u8],
        }
    }

    /// Returns the positions of the piece's filled cells. The positions are
    /// encoded as a size-4 array of unsigned bytes, with values 0-15
    /// symbolizing the following positions:
    ///
    /// | | | | |
    /// |-|-|-|-|
    /// |0|1|2|3|
    /// |4|5|6|7|
    /// |8|9|10|11|
    /// |12|13|14|15|
    ///
    /// where the position of the piece is at the top left corner, labeled 0.
    /// The array of bytes is sorted in ascending order.
    pub fn mask(&self, orientation: Orientation) -> (m: [u8; 4])
        ensures
            m@ == self.spec_mask(orientation),
    {
        let m: [u8; 4] = match self {
            PieceType::I => match orientation {
                Orientation::North => [4, 5, 6, 7],
                Orientation::East => [2, 6, 10, 14],
                Orientation::South => [8, 9, 10, 11],
                Orientation::West => [1, 5, 9, 13],
            },
            PieceType::L => match orientation {
                Orientation::North => [2, 4, 5, 6],
                Orientation::East => [1, 5, 9, 10],
                Orientation::South => [4, 5, 6, 8],
                Orientation::West => [0, 1, 5, 9],
            },
            PieceType::J => match orientation {
                Orientation::North => [0, 4, 5, 6],
                Orientation::East => [1, 2, 5, 9],
                Orientation::South => [4, 5, 6, 10],
                Orientation::West => [1, 5, 8, 9],
            },
            PieceType::S => match orientation {
                Orientation::North => [1, 2, 4, 5],
                Orientation::East => [1, 5, 6, 10],
                Orientation::South => [5, 6, 8, 9],
                Orientation::West => [0, 4, 5, 9],
            },
            PieceType::Z => match orientation {
                Orientation::North => [0, 1, 5, 6],
                Orientation::East => [2, 5, 6, 9],
                Orientation::South => [4, 5, 9, 10],
                Orientation::West => [1, 4, 5, 8],
            },
            PieceType::T => match orientation {
                Orientation::North => [1, 4, 5, 6],
                Orientation::East => [1, 5, 6, 9],
                Orientation::South => [4, 5, 6, 9],
                Orientation::West => [1, 4, 5, 9],
            },
            PieceType::O => [1, 2, 5, 6],
        };
        proof {
            assert(m@ =~= self.spec_mask(orientation));
        }
        m
    }
}

/// Every mask holds exactly 4 cells of the 4x4 box, strictly ascending by
/// index.
pub proof fn lemma_mask_wf(kind: PieceType, orientation: Orientation)
    ensures
        kind.spec_mask(orientation).len() == 4,
        forall|i: int, j: int|
            0 <= i < j < 4 ==> kind.spec_mask(orientation)[i] < kind.spec_mask(orientation)[j],
        forall|i: int| 0 <= i < 4 ==> kind.spec_mask(orientation)[i] < 16,
{
    match kind {
        PieceType::I => match orientation {
            Orientation::North => {},
            Orientation::East => {},
            Orientation::South => {},
            Orientation::West => {},
        },
        PieceType::L => match orientation {
            Orientation::North => {},
            Orientation::East => {},
            Orientation::South => {},
            Orientation::West => {},
        },
        PieceType::J => match orientation {
            Orientation::North => {},
            Orientation::East => {},
            Orientation::South => {},
            Orientation::West => {},
        },
        PieceType::S => match orientation {
            Orientation::North => {},
            Orientation::East => {},
            Orientation::South => {},
            Orientation::West => {},
        },
        PieceType::Z => match orientation {
            Orientation::North => {},
            Orientation::East => {},
            Orientation::South => {},
            Orientation::West => {},
        },
        PieceType::T => match orientation {
            Orientation::North => {},
            Orientation::East => {},
            Orientation::South => {},
            Orientation::West => {},
        },
        PieceType::O => {},
    }
}

} // verus!
