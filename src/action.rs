use vstd::prelude::*;

use crate::bank::{follows_model, BankState};
use crate::model::{
    buy_model, deposit_model, sell_model, transfer_model, withdraw_model, BankError, Ledger,
};
use crate::num::{decimal_value, parse_decimal, BigNum};

verus! {

/// One operation on the ledger.
#[derive(Clone, Debug)]
pub enum Action {
    Deposit { depositor: String, amount: BigNum },
    Withdraw { withdrawer: String, amount: BigNum },
    Transfer { sender: String, receiver: String, amount: BigNum },
    BuyInvestment { buyer: String, amount: BigNum },
    SellInvestment { seller: String, investment_id: BigNum },
}

/// What the model does with an action.
pub open spec fn apply_model(s: Ledger, a: Action) -> Result<Ledger, BankError> {
    match a {
        Action::Deposit { depositor, amount } => deposit_model(s, depositor@, amount@),
        Action::Withdraw { withdrawer, amount } => withdraw_model(s, withdrawer@, amount@),
        Action::Transfer { sender, receiver, amount } => transfer_model(
            s,
            sender@,
            receiver@,
            amount@,
        ),
        Action::BuyInvestment { buyer, amount } => buy_model(s, buyer@, amount@),
        Action::SellInvestment { seller, investment_id } => sell_model(s, seller@, investment_id@),
    }
}

impl BankState {
    /// Applies an action: all or nothing, with the outcome of the model.
    pub fn apply(&mut self, action: Action) -> (r: Result<(), BankError>)
        requires
            old(self).wf(),
        ensures
            final(self).wf(),
            follows_model(r, *old(self), *final(self), apply_model(old(self)@, action)),
    {
        match action {
            Action::Deposit { depositor, amount } => self.deposit(depositor, amount),
            Action::Withdraw { withdrawer, amount } => self.withdraw(withdrawer, amount),
            Action::Transfer { sender, receiver, amount } => self.transfer(sender, receiver, amount),
            Action::BuyInvestment { buyer, amount } => self.buy_investment(buyer, amount),
            Action::SellInvestment { seller, investment_id } => self.sell_investment(
                seller,
                investment_id,
            ),
        }
    }
}

/// Why a command line does not describe an action.
#[derive(Clone, Copy, Debug, PartialEq, Eq, Structural)]
pub enum ParseError {
    MissingInput,
    UnknownCommand,
    TooFewArguments,
    TooManyArguments,
    InvalidAmount,
    InvalidId,
}

/// The texts of a sequence of words.
pub open spec fn words_view(v: Seq<String>) -> Seq<Seq<char>> {
    v.map_values(|w: String| w@)
}

/// The error for a command taking `n` arguments, the last one numeric, that
/// reports `bad` when that argument is not an integer.
pub open spec fn args_error(t: Seq<Seq<char>>, n: int, bad: ParseError) -> Option<ParseError> {
    if t.len() <= n {
        Some(ParseError::TooFewArguments)
    } else if decimal_value(t[n]) is None {
        Some(bad)
    } else if t.len() > n + 1 {
        Some(ParseError::TooManyArguments)
    } else {
        None
    }
}

/// The error that the words `t` of a command line give, if any.
pub open spec fn parse_error(t: Seq<Seq<char>>) -> Option<ParseError> {
    if t.len() == 0 {
        Some(ParseError::MissingInput)
    } else if t[0] == "deposit"@ || t[0] == "withdraw"@ || t[0] == "buy_investment"@ {
        args_error(t, 2, ParseError::InvalidAmount)
    } else if t[0] == "transfer"@ {
        args_error(t, 3, ParseError::InvalidAmount)
    } else if t[0] == "sell_investment"@ {
        args_error(t, 2, ParseError::InvalidId)
    } else {
        Some(ParseError::UnknownCommand)
    }
}

/// The action `a` is the one that the words `t` describe.
pub open spec fn action_fits(a: Action, t: Seq<Seq<char>>) -> bool {
    match a {
        Action::Deposit { depositor, amount } => t.len() == 3 && t[0] == "deposit"@
            && depositor@ == t[1] && decimal_value(t[2]) == Some(amount@),
        Action::Withdraw { withdrawer, amount } => t.len() == 3 && t[0] == "withdraw"@
            && withdrawer@ == t[1] && decimal_value(t[2]) == Some(amount@),
        Action::Transfer { sender, receiver, amount } => t.len() == 4 && t[0] == "transfer"@
            && sender@ == t[1] && receiver@ == t[2] && decimal_value(t[3]) == Some(amount@),
        Action::BuyInvestment { buyer, amount } => t.len() == 3 && t[0] == "buy_investment"@
            && buyer@ == t[1] && decimal_value(t[2]) == Some(amount@),
        Action::SellInvestment { seller, investment_id } => t.len() == 3 && t[0]
            == "sell_investment"@ && seller@ == t[1] && decimal_value(t[2]) == Some(
            investment_id@,
        ),
    }
}

/// White space as `char::is_whitespace` gives it: the characters with the
/// Unicode `White_Space` property.
pub open spec fn is_white_space(c: char) -> bool {
    ||| '\u{9}' <= c <= '\u{d}'
    ||| c == ' '
    ||| c == '\u{85}'
    ||| c == '\u{a0}'
    ||| c == '\u{1680}'
    ||| '\u{2000}' <= c <= '\u{200a}'
    ||| c == '\u{2028}'
    ||| c == '\u{2029}'
    ||| c == '\u{202f}'
    ||| c == '\u{205f}'
    ||| c == '\u{3000}'
}

/// The words of a line: its maximal runs of characters that are not white
/// space, in order.
pub open spec fn words_of(s: Seq<char>) -> Seq<Seq<char>>
    decreases s.len(),
{
    if s.len() == 0 {
        Seq::empty()
    } else {
        let before = words_of(s.drop_last());
        let c = s.last();
        if is_white_space(c) {
            before
        } else if s.len() == 1 || is_white_space(s[s.len() - 2]) {
            before.push(seq![c])
        } else {
            before.update(before.len() - 1, before.last().push(c))
        }
    }
}

/// Relies on `str::split_whitespace`, which yields the maximal runs of
/// characters that are not `char::is_whitespace`, in order.
#[verifier::external_body]
fn split_words(s: &str) -> (r: Vec<String>)
    ensures
        words_view(r@) == words_of(s@),
{
    s.split_whitespace().map(|w| w.to_string()).collect()
}

/// Whether a word is exactly `word`.
pub(crate) fn is_word(token: &String, word: &str) -> (r: bool)
    ensures
        r == (token@ == word@),
{
    *token == word.to_owned()
}

/// Takes the word at `pos`, moving past it.
pub fn next_arg(tokens: &Vec<String>, pos: &mut usize) -> (r: Result<String, ParseError>)
    ensures
        *old(pos) < tokens@.len() ==> r is Ok && r->Ok_0@ == tokens@[*old(pos) as int]@ && *final(pos)
            == *old(pos) + 1,
        *old(pos) >= tokens@.len() ==> r == Err::<String, ParseError>(ParseError::TooFewArguments)
            && *final(pos) == *old(pos),
{
    if *pos < tokens.len() {
        let w = tokens[*pos].clone();
        *pos = *pos + 1;
        Ok(w)
    } else {
        Err(ParseError::TooFewArguments)
    }
}

/// Succeeds when no word is left from `pos` on.
pub fn no_more_args(tokens: &Vec<String>, pos: usize) -> (r: Result<(), ParseError>)
    ensures
        pos >= tokens@.len() ==> r is Ok,
        pos < tokens@.len() ==> r == Err::<(), ParseError>(ParseError::TooManyArguments),
{
    if pos < tokens.len() {
        Err(ParseError::TooManyArguments)
    } else {
        Ok(())
    }
}

/// Reads the numeric argument at `pos`, reporting `bad` when it is no integer.
fn numeric_arg(tokens: &Vec<String>, pos: &mut usize, bad: ParseError) -> (r: Result<
    BigNum,
    ParseError,
>)
    ensures
        *old(pos) >= tokens@.len() ==> r == Err::<BigNum, ParseError>(ParseError::TooFewArguments),
        *old(pos) < tokens@.len() ==> *final(pos) == *old(pos) + 1 && match decimal_value(
            tokens@[*old(pos) as int]@,
        ) {
            Some(v) => r is Ok && r->Ok_0@ == v,
            None => r == Err::<BigNum, ParseError>(bad),
        },
{
    let w = next_arg(tokens, pos)?;
    match parse_decimal(w.as_str()) {
        Some(n) => Ok(n),
        None => Err(bad),
    }
}

impl Action {
    /// Reads an action from the words of a command line.
    pub fn parse_words(tokens: &Vec<String>) -> (r: Result<Action, ParseError>)
        ensures
            match parse_error(words_view(tokens@)) {
                Some(e) => r == Err::<Action, ParseError>(e),
                None => r is Ok && action_fits(r->Ok_0, words_view(tokens@)),
            },
    {
        let ghost t = words_view(tokens@);
        let mut pos: usize = 0;
        let cmd = match next_arg(tokens, &mut pos) {
            Ok(c) => c,
            Err(_) => return Err(ParseError::MissingInput),
        };
        if is_word(&cmd, "deposit") {
            let depositor = next_arg(tokens, &mut pos)?;
            let amount = numeric_arg(tokens, &mut pos, ParseError::InvalidAmount)?;
            no_more_args(tokens, pos)?;
            Ok(Action::Deposit { depositor, amount })
        } else if is_word(&cmd, "withdraw") {
            let withdrawer = next_arg(tokens, &mut pos)?;
            let amount = numeric_arg(tokens, &mut pos, ParseError::InvalidAmount)?;
            no_more_args(tokens, pos)?;
            Ok(Action::Withdraw { withdrawer, amount })
        } else if is_word(&cmd, "buy_investment") {
            let buyer = next_arg(tokens, &mut pos)?;
            let amount = numeric_arg(tokens, &mut pos, ParseError::InvalidAmount)?;
            no_more_args(tokens, pos)?;
            Ok(Action::BuyInvestment { buyer, amount })
        } else if is_word(&cmd, "transfer") {
            let sender = next_arg(tokens, &mut pos)?;
            let receiver = next_arg(tokens, &mut pos)?;
            let amount = numeric_arg(tokens, &mut pos, ParseError::InvalidAmount)?;
            no_more_args(tokens, pos)?;
            Ok(Action::Transfer { sender, receiver, amount })
        } else if is_word(&cmd, "sell_investment") {
            let seller = next_arg(tokens, &mut pos)?;
            let investment_id = numeric_arg(tokens, &mut pos, ParseError::InvalidId)?;
            no_more_args(tokens, pos)?;
            Ok(Action::SellInvestment { seller, investment_id })
        } else {
            Err(ParseError::UnknownCommand)
        }
    }

    /// Reads an action from a command line.
    pub fn parse(line: &str) -> (r: Result<Action, ParseError>)
        ensures
            match parse_error(words_of(line@)) {
                Some(e) => r == Err::<Action, ParseError>(e),
                None => r is Ok && action_fits(r->Ok_0, words_of(line@)),
            },
    {
        let tokens = split_words(line);
        Action::parse_words(&tokens)
    }
}

impl core::str::FromStr for Action {
    type Err = ParseError;

    fn from_str(s: &str) -> Result<Action, ParseError> {
        Action::parse(s)
    }
}

} // verus!
