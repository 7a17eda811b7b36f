//! A byte-at-a-time RFC 8259 grammar validator.
//!
//! The rewriter passes unrecognized bytes through untouched, so malformed punctuation or a root that is
//! no object could reach balanced depth and finish clean. The validator enforces the whole JSON grammar,
//! and that the document root is an object, without buffering the page: its only unbounded state is a
//! stack of container kinds as deep as the nesting.
use vstd::prelude::*;

use super::{
    is_json_whitespace, json_whitespace, BACKSLASH, CLOSE_BRACE, CLOSE_BRACKET, COLON, COMMA, OPEN_BRACE,
    OPEN_BRACKET, QUOTE,
};

verus! {

/// The container a close bracket must match and a comma must continue.
#[derive(Debug, Clone, Copy, PartialEq, Eq, Structural)]
pub enum Container {
    Object,
    Array,
}

/// The keyword a literal is spelling out.
#[derive(Debug, Clone, Copy, PartialEq, Eq, Structural)]
pub enum Keyword {
    True,
    False,
    Null,
}

impl Keyword {
    /// The bytes of the keyword.
    pub open spec fn spelling(self) -> Seq<u8> {
        match self {
            Keyword::True => seq![0x74u8, 0x72, 0x75, 0x65],
            Keyword::False => seq![0x66u8, 0x61, 0x6C, 0x73, 0x65],
            Keyword::Null => seq![0x6Eu8, 0x75, 0x6C, 0x6C],
        }
    }

    /// The bytes of the keyword.
    fn bytes(self) -> (r: Vec<u8>)
        ensures
            r@ == self.spelling(),
    {
        let v: Vec<u8> = match self {
            Keyword::True => vec![0x74, 0x72, 0x75, 0x65],
            Keyword::False => vec![0x66, 0x61, 0x6C, 0x73, 0x65],
            Keyword::Null => vec![0x6E, 0x75, 0x6C, 0x6C],
        };
        assert(v@ =~= self.spelling());
        v
    }
}

/// The escape position inside a string literal.
#[derive(Debug, Clone, Copy, PartialEq, Eq, Structural)]
pub enum Escape {
    /// Reading literal string bytes.
    Literal,
    /// Saw a backslash; the next byte selects the escape.
    Backslash,
    /// Inside a `\uXXXX` sequence, holding the count of hex digits already accepted.
    Unicode(u8),
}

/// The position inside a number. Accepting positions may end the number; the rest still need input.
#[derive(Debug, Clone, Copy, PartialEq, Eq, Structural)]
pub enum Number {
    /// Saw a leading `-`; a digit must follow.
    Minus,
    /// Saw a single `0`; only a fraction or exponent may extend it.
    Zero,
    /// Saw `1-9` and then digits.
    Int,
    /// Saw `.`; a fraction digit must follow.
    Dot,
    /// Inside fraction digits.
    Frac,
    /// Saw `e` or `E`; a sign or digit must follow.
    Exp,
    /// Saw the exponent sign; a digit must follow.
    ExpSign,
    /// Inside exponent digits.
    ExpDigit,
}

impl Number {
    /// Whether the number may end here.
    pub open spec fn may_end(self) -> bool {
        self is Zero || self is Int || self is Frac || self is ExpDigit
    }

    /// Whether the number may end here.
    fn accepting(self) -> (r: bool)
        ensures
            r == self.may_end(),
    {
        matches!(self, Number::Zero | Number::Int | Number::Frac | Number::ExpDigit)
    }
}

/// The next byte the grammar expects, or a scalar token being consumed.
#[derive(Debug, Clone, Copy, PartialEq, Eq, Structural)]
pub enum State {
    /// The start of a value: the document root, an array element, or an object member value.
    Value,
    /// Just after `[`: a value, or `]` to close an empty array.
    ArrayFirst,
    /// Just after `{`: a key string, or `}` to close an empty object.
    ObjectFirst,
    /// After a member separator inside an object: a key string.
    ObjectKey,
    /// After an object key: the `:` separator.
    Colon,
    /// After a value inside a container: `,` or the matching close bracket.
    Comma,
    /// The root value closed: only trailing whitespace remains.
    Done,
    /// Inside a string. `key` marks an object key so its close expects the colon.
    Str { escape: Escape, key: bool },
    /// Inside a number.
    Num(Number),
    /// Inside a keyword, holding how many bytes it has matched.
    Lit { keyword: Keyword, index: u8 },
}

/// Where the grammar stands: the open containers, what it expects next, whether it was violated, and
/// whether the root value has closed.
pub struct Grammar {
    pub stack: Seq<Container>,
    pub state: State,
    pub failed: bool,
    pub complete: bool,
}

/// Where the grammar stands before the first byte.
pub open spec fn grammar_start() -> Grammar {
    Grammar { stack: Seq::empty(), state: State::Value, failed: false, complete: false }
}

pub open spec fn ascii_digit(byte: u8) -> bool {
    0x30 <= byte <= 0x39
}

pub open spec fn hex_digit(byte: u8) -> bool {
    ascii_digit(byte) || 0x41 <= byte <= 0x46 || 0x61 <= byte <= 0x66
}

/// What a byte does to a number: it extends it, ends it, or spoils it.
pub enum NumberStep {
    Continue(Number),
    /// The byte is not part of the number; the number ends and the byte is read again behind it.
    Terminate,
    Reject,
}

/// What `byte` does to a number at `number`.
pub open spec fn number_step(number: Number, byte: u8) -> NumberStep {
    match number {
        Number::Minus => if byte == 0x30 {
            NumberStep::Continue(Number::Zero)
        } else if ascii_digit(byte) {
            NumberStep::Continue(Number::Int)
        } else {
            NumberStep::Reject
        },
        Number::Zero => if byte == 0x2E {
            NumberStep::Continue(Number::Dot)
        } else if byte == 0x65 || byte == 0x45 {
            NumberStep::Continue(Number::Exp)
        } else {
            NumberStep::Terminate
        },
        Number::Int => if ascii_digit(byte) {
            NumberStep::Continue(Number::Int)
        } else if byte == 0x2E {
            NumberStep::Continue(Number::Dot)
        } else if byte == 0x65 || byte == 0x45 {
            NumberStep::Continue(Number::Exp)
        } else {
            NumberStep::Terminate
        },
        Number::Dot => if ascii_digit(byte) {
            NumberStep::Continue(Number::Frac)
        } else {
            NumberStep::Terminate
        },
        Number::Frac => if ascii_digit(byte) {
            NumberStep::Continue(Number::Frac)
        } else if byte == 0x65 || byte == 0x45 {
            NumberStep::Continue(Number::Exp)
        } else {
            NumberStep::Terminate
        },
        Number::Exp => if byte == 0x2B || byte == 0x2D {
            NumberStep::Continue(Number::ExpSign)
        } else if ascii_digit(byte) {
            NumberStep::Continue(Number::ExpDigit)
        } else {
            NumberStep::Terminate
        },
        Number::ExpSign | Number::ExpDigit => if ascii_digit(byte) {
            NumberStep::Continue(Number::ExpDigit)
        } else {
            NumberStep::Terminate
        },
    }
}

impl Grammar {
    pub open spec fn at(self, state: State) -> Grammar {
        Grammar { state, ..self }
    }

    pub open spec fn fail(self) -> Grammar {
        Grammar { failed: true, ..self }
    }

    /// A value has ended: the root is complete, or its container goes on.
    pub open spec fn value_ended(self) -> Grammar {
        if self.stack.len() == 0 {
            Grammar { state: State::Done, complete: true, ..self }
        } else {
            self.at(State::Comma)
        }
    }

    /// A close bracket of the kind `kind`.
    pub open spec fn closed_by(self, kind: Container) -> Grammar {
        if self.stack.len() == 0 {
            self.fail()
        } else {
            let popped = Grammar { stack: self.stack.drop_last(), ..self };
            if self.stack.last() == kind {
                popped.value_ended()
            } else {
                popped.fail()
            }
        }
    }

    /// The first byte of a value. The root of a document is an object.
    pub open spec fn value_begun(self, byte: u8) -> Grammar {
        if self.stack.len() == 0 && byte != OPEN_BRACE {
            self.fail()
        } else if byte == OPEN_BRACE {
            Grammar { stack: self.stack.push(Container::Object), state: State::ObjectFirst, ..self }
        } else if byte == OPEN_BRACKET {
            Grammar { stack: self.stack.push(Container::Array), state: State::ArrayFirst, ..self }
        } else if byte == QUOTE {
            self.at(State::Str { escape: Escape::Literal, key: false })
        } else if byte == 0x74 {
            self.at(State::Lit { keyword: Keyword::True, index: 1 })
        } else if byte == 0x66 {
            self.at(State::Lit { keyword: Keyword::False, index: 1 })
        } else if byte == 0x6E {
            self.at(State::Lit { keyword: Keyword::Null, index: 1 })
        } else if byte == 0x2D {
            self.at(State::Num(Number::Minus))
        } else if byte == 0x30 {
            self.at(State::Num(Number::Zero))
        } else if ascii_digit(byte) {
            self.at(State::Num(Number::Int))
        } else {
            self.fail()
        }
    }

    /// A byte inside a string.
    pub open spec fn in_string(self, byte: u8, escape: Escape, key: bool) -> Grammar {
        match escape {
            Escape::Literal => if byte == QUOTE {
                if key {
                    self.at(State::Colon)
                } else {
                    self.value_ended()
                }
            } else if byte == BACKSLASH {
                self.at(State::Str { escape: Escape::Backslash, key })
            } else if byte <= 0x1F {
                self.fail()
            } else {
                self
            },
            Escape::Backslash => if byte == QUOTE || byte == BACKSLASH || byte == 0x2F || byte == 0x62
                || byte == 0x66 || byte == 0x6E || byte == 0x72 || byte == 0x74 {
                self.at(State::Str { escape: Escape::Literal, key })
            } else if byte == 0x75 {
                self.at(State::Str { escape: Escape::Unicode(0), key })
            } else {
                self.fail()
            },
            Escape::Unicode(seen) => if !hex_digit(byte) {
                self.fail()
            } else if seen >= 3 {
                self.at(State::Str { escape: Escape::Literal, key })
            } else {
                self.at(State::Str { escape: Escape::Unicode((seen + 1) as u8), key })
            },
        }
    }

    /// A byte inside a keyword.
    pub open spec fn in_literal(self, byte: u8, keyword: Keyword, index: u8) -> Grammar {
        let spelling = keyword.spelling();
        if index >= spelling.len() || spelling[index as int] != byte {
            self.fail()
        } else if index + 1 == spelling.len() {
            self.value_ended()
        } else {
            self.at(State::Lit { keyword, index: (index + 1) as u8 })
        }
    }

    /// A byte between tokens.
    pub open spec fn between_tokens(self, byte: u8) -> Grammar {
        if json_whitespace(byte) {
            self
        } else {
            match self.state {
                State::Value => self.value_begun(byte),
                State::ArrayFirst => if byte == CLOSE_BRACKET {
                    self.closed_by(Container::Array)
                } else {
                    self.value_begun(byte)
                },
                State::ObjectFirst => if byte == CLOSE_BRACE {
                    self.closed_by(Container::Object)
                } else if byte == QUOTE {
                    self.at(State::Str { escape: Escape::Literal, key: true })
                } else {
                    self.fail()
                },
                State::ObjectKey => if byte == QUOTE {
                    self.at(State::Str { escape: Escape::Literal, key: true })
                } else {
                    self.fail()
                },
                State::Colon => if byte == COLON {
                    self.at(State::Value)
                } else {
                    self.fail()
                },
                State::Comma => if byte == COMMA {
                    if self.stack.len() > 0 && self.stack.last() == Container::Object {
                        self.at(State::ObjectKey)
                    } else {
                        self.at(State::Value)
                    }
                } else if byte == CLOSE_BRACKET {
                    self.closed_by(Container::Array)
                } else if byte == CLOSE_BRACE {
                    self.closed_by(Container::Object)
                } else {
                    self.fail()
                },
                _ => self.fail(),
            }
        }
    }

    /// The grammar one byte on. A violation is final.
    pub open spec fn after(self, byte: u8) -> Grammar {
        if self.failed {
            self
        } else {
            match self.state {
                State::Str { escape, key } => self.in_string(byte, escape, key),
                State::Lit { keyword, index } => self.in_literal(byte, keyword, index),
                State::Num(number) => match number_step(number, byte) {
                    NumberStep::Continue(next) => self.at(State::Num(next)),
                    NumberStep::Terminate => if number.may_end() {
                        self.value_ended().between_tokens(byte)
                    } else {
                        self.fail()
                    },
                    NumberStep::Reject => self.fail(),
                },
                _ => self.between_tokens(byte),
            }
        }
    }

    /// The grammar behind all of `bytes`.
    pub open spec fn after_all(self, bytes: Seq<u8>) -> Grammar
        decreases bytes.len(),
    {
        if bytes.len() == 0 {
            self
        } else {
            self.after_all(bytes.drop_last()).after(bytes.last())
        }
    }

    /// Whether the bytes so far are a whole document.
    pub open spec fn accepts(self) -> bool {
        !self.failed && self.complete
    }
}

/// The document was no single well-formed JSON object.
#[derive(Debug, Clone, Copy, PartialEq, Eq, Structural)]
pub struct Malformed;

/// Streaming RFC 8259 validator that requires an object as the root.
#[derive(Debug)]
pub struct JsonValidator {
    stack: Vec<Container>,
    state: State,
    /// A grammar violation was seen.
    failed: bool,
    /// The root value has been fully consumed.
    complete: bool,
}

impl JsonValidator {
    /// Where the grammar stands.
    pub closed spec fn view(self) -> Grammar {
        Grammar { stack: self.stack@, state: self.state, failed: self.failed, complete: self.complete }
    }

    /// A validator before the first byte.
    pub fn new() -> (r: Self)
        ensures
            r@ == grammar_start(),
    {
        let r = JsonValidator { stack: Vec::new(), state: State::Value, failed: false, complete: false };
        assert(r@.stack =~= Seq::<Container>::empty());
        r
    }

    /// Say whether the grammar was kept and the root closed as a single object.
    pub fn result(&self) -> (r: Result<(), Malformed>)
        ensures
            r is Ok <==> self@.accepts(),
    {
        if self.failed || !self.complete {
            return Err(Malformed);
        }
        Ok(())
    }

    /// Advance the grammar by one raw byte. A violation is latched and every later byte is ignored, so
    /// the caller can keep streaming.
    pub fn feed(&mut self, byte: u8)
        ensures
            final(self)@ == old(self)@.after(byte),
    {
        if self.failed {
            return;
        }
        match self.state {
            State::Str { escape, key } => self.feed_string(byte, escape, key),
            State::Num(number) => match step_number(number, byte) {
                NumberStep::Continue(next) => {
                    self.state = State::Num(next);
                },
                NumberStep::Terminate => {
                    if number.accepting() {
                        // Only a number ends without consuming its terminator, so that byte is read
                        // again in the state the finished number leaves behind.
                        self.finish_value();
                        self.feed_structural(byte);
                    } else {
                        self.failed = true;
                    }
                },
                NumberStep::Reject => {
                    self.failed = true;
                },
            },
            State::Lit { keyword, index } => self.feed_literal(byte, keyword, index),
            _ => self.feed_structural(byte),
        }
    }

    fn feed_structural(&mut self, byte: u8)
        requires
            !old(self)@.failed,
        ensures
            final(self)@ == old(self)@.between_tokens(byte),
    {
        if is_json_whitespace(byte) {
            return;
        }
        match self.state {
            State::Value => self.begin_value(byte),
            State::ArrayFirst => {
                if byte == CLOSE_BRACKET {
                    self.close(Container::Array);
                } else {
                    self.begin_value(byte);
                }
            },
            State::ObjectFirst => {
                if byte == CLOSE_BRACE {
                    self.close(Container::Object);
                } else if byte == QUOTE {
                    self.state = State::Str { escape: Escape::Literal, key: true };
                } else {
                    self.failed = true;
                }
            },
            State::ObjectKey => {
                if byte == QUOTE {
                    self.state = State::Str { escape: Escape::Literal, key: true };
                } else {
                    self.failed = true;
                }
            },
            State::Colon => {
                if byte == COLON {
                    self.state = State::Value;
                } else {
                    self.failed = true;
                }
            },
            State::Comma => {
                if byte == COMMA {
                    let n: usize = self.stack.len();
                    self.state = if n > 0 && self.stack[n - 1] == Container::Object {
                        State::ObjectKey
                    } else {
                        State::Value
                    };
                } else if byte == CLOSE_BRACKET {
                    self.close(Container::Array);
                } else if byte == CLOSE_BRACE {
                    self.close(Container::Object);
                } else {
                    self.failed = true;
                }
            },
            _ => {
                self.failed = true;
            },
        }
    }

    fn begin_value(&mut self, byte: u8)
        ensures
            final(self)@ == old(self)@.value_begun(byte),
    {
        if self.stack.len() == 0 && byte != OPEN_BRACE {
            self.failed = true;
            return;
        }
        match byte {
            OPEN_BRACE => {
                self.stack.push(Container::Object);
                self.state = State::ObjectFirst;
            },
            OPEN_BRACKET => {
                self.stack.push(Container::Array);
                self.state = State::ArrayFirst;
            },
            QUOTE => {
                self.state = State::Str { escape: Escape::Literal, key: false };
            },
            0x74 => {
                self.state = State::Lit { keyword: Keyword::True, index: 1 };
            },
            0x66 => {
                self.state = State::Lit { keyword: Keyword::False, index: 1 };
            },
            0x6E => {
                self.state = State::Lit { keyword: Keyword::Null, index: 1 };
            },
            0x2D => {
                self.state = State::Num(Number::Minus);
            },
            0x30 => {
                self.state = State::Num(Number::Zero);
            },
            0x31..=0x39 => {
                self.state = State::Num(Number::Int);
            },
            _ => {
                self.failed = true;
            },
        }
    }

    fn close(&mut self, expected: Container)
        ensures
            final(self)@ == old(self)@.closed_by(expected),
    {
        match self.stack.pop() {
            Some(kind) => {
                if kind == expected {
                    self.finish_value();
                } else {
                    self.failed = true;
                }
            },
            None => {
                self.failed = true;
            },
        }
    }

    fn finish_value(&mut self)
        ensures
            final(self)@ == old(self)@.value_ended(),
    {
        if self.stack.len() == 0 {
            self.state = State::Done;
            self.complete = true;
        } else {
            self.state = State::Comma;
        }
    }

    fn feed_string(&mut self, byte: u8, escape: Escape, key: bool)
        requires
            old(self)@.state == (State::Str { escape, key }),
        ensures
            final(self)@ == old(self)@.in_string(byte, escape, key),
    {
        match escape {
            Escape::Literal => {
                if byte == QUOTE {
                    if key {
                        self.state = State::Colon;
                    } else {
                        self.finish_value();
                    }
                } else if byte == BACKSLASH {
                    self.state = State::Str { escape: Escape::Backslash, key };
                } else if byte <= 0x1F {
                    // Control characters may not stand unescaped inside a string.
                    self.failed = true;
                }
            },
            Escape::Backslash => match byte {
                QUOTE | BACKSLASH | 0x2F | 0x62 | 0x66 | 0x6E | 0x72 | 0x74 => {
                    self.state = State::Str { escape: Escape::Literal, key };
                },
                0x75 => {
                    self.state = State::Str { escape: Escape::Unicode(0), key };
                },
                _ => {
                    self.failed = true;
                },
            },
            Escape::Unicode(seen) => {
                if !is_hex_digit(byte) {
                    self.failed = true;
                } else if seen >= 3 {
                    self.state = State::Str { escape: Escape::Literal, key };
                } else {
                    self.state = State::Str { escape: Escape::Unicode(seen + 1), key };
                }
            },
        }
    }

    fn feed_literal(&mut self, byte: u8, keyword: Keyword, index: u8)
        ensures
            final(self)@ == old(self)@.in_literal(byte, keyword, index),
    {
        let bytes = keyword.bytes();
        let at: usize = index as usize;
        if at >= bytes.len() || bytes[at] != byte {
            self.failed = true;
        } else if at + 1 == bytes.len() {
            self.finish_value();
        } else {
            self.state = State::Lit { keyword, index: index + 1 };
        }
    }
}

fn is_hex_digit(byte: u8) -> (r: bool)
    ensures
        r == hex_digit(byte),
{
    (0x30 <= byte && byte <= 0x39) || (0x41 <= byte && byte <= 0x46) || (0x61 <= byte && byte <= 0x66)
}

fn step_number(number: Number, byte: u8) -> (r: NumberStep)
    ensures
        r == number_step(number, byte),
{
    let digit: bool = 0x30 <= byte && byte <= 0x39;
    let exponent: bool = byte == 0x65 || byte == 0x45;
    match number {
        Number::Minus => {
            if byte == 0x30 {
                NumberStep::Continue(Number::Zero)
            } else if digit {
                NumberStep::Continue(Number::Int)
            } else {
                NumberStep::Reject
            }
        },
        Number::Zero => {
            if byte == 0x2E {
                NumberStep::Continue(Number::Dot)
            } else if exponent {
                NumberStep::Continue(Number::Exp)
            } else {
                NumberStep::Terminate
            }
        },
        Number::Int => {
            if digit {
                NumberStep::Continue(Number::Int)
            } else if byte == 0x2E {
                NumberStep::Continue(Number::Dot)
            } else if exponent {
                NumberStep::Continue(Number::Exp)
            } else {
                NumberStep::Terminate
            }
        },
        Number::Dot => {
            if digit {
                NumberStep::Continue(Number::Frac)
            } else {
                NumberStep::Terminate
            }
        },
        Number::Frac => {
            if digit {
                NumberStep::Continue(Number::Frac)
            } else if exponent {
                NumberStep::Continue(Number::Exp)
            } else {
                NumberStep::Terminate
            }
        },
        Number::Exp => {
            if byte == 0x2B || byte == 0x2D {
                NumberStep::Continue(Number::ExpSign)
            } else if digit {
                NumberStep::Continue(Number::ExpDigit)
            } else {
                NumberStep::Terminate
            }
        },
        Number::ExpSign | Number::ExpDigit => {
            if digit {
                NumberStep::Continue(Number::ExpDigit)
            } else {
                NumberStep::Terminate
            }
        },
    }
}

} // verus!
