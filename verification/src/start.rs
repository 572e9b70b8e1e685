//! The `start` plugin: opens files and addresses with the program that the
//! system has for them.

use crate::command::{named_of, CallInfo};
use crate::value::Value;
use vstd::prelude::*;
use vstd::string::StringExecFns;

verus! {

/// Whether `url::Url::parse` takes the text for an absolute URL.
pub uninterp spec fn is_absolute_url(s: Seq<char>) -> bool;

/// `url::Url::parse`: whether the text can be parsed as an absolute URL.
#[verifier::external_body]
fn parses_as_url(s: &str) -> (b: bool)
    ensures
        b == is_absolute_url(s@),
{
    url::Url::parse(s).is_ok()
}

/// What is to be opened, and with which program.
#[derive(Debug, PartialEq, Eq)]
pub struct Start {
    pub filenames: Vec<String>,
    pub application: Option<String>,
}

/// The warning for a file that is not there.
pub open spec fn missing_file(filename: Seq<char>) -> Seq<char> {
    "The file '"@ + filename + "' does not exist"@
}

/// The texts of the positional arguments, if every one of them is a string;
/// else none.
pub open spec fn candidates_of(positional: Option<Vec<Value>>) -> Seq<Seq<char>> {
    match positional {
        Some(values) => if forall|i: int|
            0 <= i < values@.len() ==> (#[trigger] values@[i]).deep_view().text() is Some {
            Seq::new(values@.len(), |i: int| values@[i].deep_view().text()->0)
        } else {
            Seq::empty()
        },
        None => Seq::empty(),
    }
}

impl Start {
    /// Nothing to open yet.
    pub fn new() -> (s: Start)
        ensures
            s.filenames@ == Seq::<String>::empty(),
            s.application is None,
    {
        Start { filenames: Vec::new(), application: None }
    }

    /// Takes `filename` among what is to be opened if it can be reached: if
    /// there is such a file, or if it is an address. Else it is left out and a
    /// warning is handed back.
    pub fn keep_filename(&mut self, filename: String, reachable: bool) -> (warning: Option<String>)
        ensures
            final(self).application == old(self).application,
            reachable ==> final(self).filenames@ == old(self).filenames@.push(filename)
                && warning is None,
            !reachable ==> final(self).filenames@ == old(self).filenames@
                && warning.deep_view() == Some(missing_file(filename@)),
    {
        if reachable {
            self.filenames.push(filename);
            None
        } else {
            let mut msg = "The file '".to_owned();
            msg.append(filename.as_str());
            msg.append("' does not exist");
            Some(msg)
        }
    }

    /// Takes `filename` among what is to be opened if a file of that name
    /// exists or if it is an absolute URL.
    pub fn add_filename(&mut self, filename: String, file_exists: bool) -> (warning: Option<String>)
        ensures
            final(self).application == old(self).application,
            (file_exists || is_absolute_url(filename@)) ==> final(self).filenames@ == old(
                self,
            ).filenames@.push(filename) && warning is None,
            !(file_exists || is_absolute_url(filename@)) ==> final(self).filenames@ == old(
                self,
            ).filenames@ && warning.deep_view() == Some(missing_file(filename@)),
    {
        let reachable = file_exists || parses_as_url(filename.as_str());
        self.keep_filename(filename, reachable)
    }

    /// The names that the call gives to open: the texts of its positional
    /// arguments, or none at all if one of them is no string.
    pub fn candidates(call_info: &CallInfo) -> (r: Vec<String>)
        ensures
            r.deep_view() == candidates_of(call_info.args.positional),
    {
        match &call_info.args.positional {
            Some(values) => {
                let mut r: Vec<String> = Vec::new();
                let mut i: usize = 0;
                while i < values.len()
                    invariant
                        i <= values.len(),
                        r.len() == i,
                        call_info.args.positional == Some(*values),
                        forall|j: int|
                            0 <= j < i ==> (#[trigger] values@[j]).deep_view().text() == Some(r@[j]@),
                    decreases values.len() - i,
                {
                    match values[i].as_string() {
                        Ok(s) => {
                            r.push(s);
                        },
                        Err(_) => {
                            assert(values@[i as int].deep_view().text() is None);
                            let none: Vec<String> = Vec::new();
                            assert(none.deep_view() =~= Seq::<Seq<char>>::empty());
                            return none;
                        },
                    }
                    i += 1;
                }
                assert(r.deep_view() =~= candidates_of(call_info.args.positional));
                r
            },
            None => {
                let none: Vec<String> = Vec::new();
                assert(none.deep_view() =~= Seq::<Seq<char>>::empty());
                none
            },
        }
    }

    /// Takes the program to open with from the flag `application`, if it is
    /// given as a string.
    pub fn parse_application(&mut self, call_info: &CallInfo)
        ensures
            final(self).filenames == old(self).filenames,
            final(self).application.deep_view() == match named_of(
                call_info.args.named,
                "application"@,
            ) {
                Some(v) => v.text(),
                None => None,
            },
    {
        self.application = match call_info.args.get("application") {
            Some(app) => match app.as_string() {
                Ok(name) => Some(name),
                Err(_) => None,
            },
            None => None,
        };
    }

    /// Takes a value of the input as the name of something to open. A value
    /// that is no string is left out, with a warning.
    pub fn parse_value(&mut self, input: &Value, file_exists: bool) -> (warning: Option<String>)
        ensures
            final(self).application == old(self).application,
            match input.deep_view().text() {
                Some(filename) => if file_exists || is_absolute_url(filename) {
                    final(self).filenames.deep_view() == old(self).filenames.deep_view().push(
                        filename,
                    ) && warning is None
                } else {
                    final(self).filenames@ == old(self).filenames@ && warning.deep_view() == Some(
                        missing_file(filename),
                    )
                },
                None => final(self).filenames@ == old(self).filenames@ && warning.deep_view() == Some(
                    "Could not convert the input to a string"@,
                ),
            },
    {
        match input.as_string() {
            Ok(filename) => {
                let ghost before = self.filenames.deep_view();
                let w = self.add_filename(filename, file_exists);
                if file_exists || w.is_none() {
                    assert(self.filenames.deep_view() =~= before.push(filename@));
                }
                w
            },
            Err(_) => Some("Could not convert the input to a string".to_owned()),
        }
    }

    /// The arguments for the program that opens what was taken: the names
    /// that were taken, which are taken out, and then, where an application
    /// is named, `-a` and its name.
    pub fn open_arguments(&mut self) -> (args: Vec<String>)
        ensures
            final(self).application == old(self).application,
            final(self).filenames@ == Seq::<String>::empty(),
            args.deep_view() == old(self).filenames.deep_view() + match old(self).application {
                Some(app_name) => seq!["-a"@, app_name@],
                None => Seq::<Seq<char>>::empty(),
            },
    {
        let mut args: Vec<String> = Vec::new();
        std::mem::swap(&mut args, &mut self.filenames);
        let ghost names = args.deep_view();
        match &self.application {
            Some(app_name) => {
                args.push("-a".to_owned());
                args.push(app_name.clone());
                assert(args.deep_view() =~= names + seq!["-a"@, app_name@]);
            },
            None => {
                assert(args.deep_view() =~= names + Seq::<Seq<char>>::empty());
            },
        }
        args
    }

    /// Opens what was taken, where no program has to be started for that:
    /// nothing is done.
    pub fn exec(&mut self)
        ensures
            *final(self) == *old(self),
    {
    }
}

} // verus!
