//! What the command line says: where the driver is, who logs in, and how
//! the reports are written.

use crate::model::Record;
use crate::model::RecordView;
use crate::text::trim;
use crate::text::trimmed;
use std::path::PathBuf;
use vstd::prelude::*;
use vstd::string::*;

verus! {

/// A path of the file system, which this crate only hands on.
#[verifier::external_type_specification]
#[verifier::external_body]
pub struct ExPathBuf(PathBuf);

/// Everything the command line says.
#[derive(Debug)]
pub struct CliArgs {
    pub driver: DriverArgs,
    pub credentials: CredentialArgs,
    pub output: ExportArgs,
    /// The month to scrape, as in `2021-04`; the dashboard's own choice if
    /// `None`.
    pub month: Option<String>,
    /// How much the logger says.
    pub log_filter: String,
}

/// Who logs in, as far as the command line says.
#[derive(Debug)]
pub struct CredentialArgs {
    pub username: Option<String>,
    pub password: Option<String>,
}

/// Where the driver is and on which port it is to listen.
#[derive(Debug)]
pub struct DriverArgs {
    pub executable: PathBuf,
    pub port: u16,
}

/// How and where the reports are written.
#[derive(Debug)]
pub struct ExportArgs {
    pub format: ExportFormat,
    pub destination: PathBuf,
}

/// The form in which a report is written.
#[derive(Eq, PartialEq, Copy, Clone, Debug, Structural)]
pub enum ExportFormat {
    /// A yield on each line.
    Values,
    /// A date in brackets and a yield on each line.
    Log,
    /// A date and a yield, separated by a semicolon, on each line.
    Csv,
}

impl ExportFormat {
    /// The line that a record becomes, with the line feed that ends it.
    pub open spec fn line_of(self, record: RecordView) -> Seq<char> {
        match self {
            ExportFormat::Values => record.value(),
            ExportFormat::Log => record.log(),
            ExportFormat::Csv => record.csv(),
        }.push('\n')
    }

    /// The lines that records become, one after the other.
    pub open spec fn lines_of(self, records: Seq<RecordView>) -> Seq<char>
        decreases records.len(),
    {
        if records.len() == 0 {
            Seq::empty()
        } else {
            self.lines_of(records.drop_last()) + self.line_of(records.last())
        }
    }

    /// The extension of the files of this form: `txt`, `log` or `csv`.
    pub fn extension(&self) -> (r: &'static str)
        ensures
            r@ == match self {
                ExportFormat::Values => "txt"@,
                ExportFormat::Log => "log"@,
                ExportFormat::Csv => "csv"@,
            },
    {
        match self {
            ExportFormat::Values => "txt",
            ExportFormat::Log => "log",
            ExportFormat::Csv => "csv",
        }
    }

    /// Writes a record as a line of this form.
    pub fn line(&self, record: &Record) -> (r: String)
        ensures
            r@ == self.line_of(record@),
    {
        let text = match self {
            ExportFormat::Values => record.to_value(),
            ExportFormat::Log => record.to_string(),
            ExportFormat::Csv => record.to_csv(),
        };
        proof {
            reveal_strlit("\n");
        }
        let r = text.concat("\n");
        assert(r@ =~= self.line_of(record@));
        r
    }

    /// Writes records as lines of this form, in their order.
    pub fn render(&self, records: &Vec<Record>) -> (r: String)
        ensures
            r@ == self.lines_of(crate::model::record_views(records@)),
    {
        let ghost views = crate::model::record_views(records@);
        let mut out = String::new();
        let mut i: usize = 0;
        proof {
            assert(views.take(0) =~= Seq::empty());
        }
        while i < records.len()
            invariant
                i <= records.len(),
                views == crate::model::record_views(records@),
                out@ == self.lines_of(views.take(i as int)),
            decreases records.len() - i,
        {
            let line = self.line(&records[i]);
            proof {
                let next = views.take(i + 1);
                assert(next.drop_last() =~= views.take(i as int));
                assert(next.last() == records@[i as int]@);
            }
            out = out.concat(line.as_str());
            i += 1;
        }
        proof {
            assert(views.take(records.len() as int) =~= views);
        }
        out
    }
}

/// What is still to be asked of the user.
#[derive(Eq, PartialEq, Copy, Clone, Debug, Structural)]
pub enum Prompt {
    /// The name or e-mail address, typed in the open.
    Username,
    /// The password, typed unseen.
    Password,
}

impl Prompt {
    /// The words that the user is asked with.
    pub fn label(&self) -> (r: &'static str)
        ensures
            r@ == match self {
                Prompt::Username => "Username/Email"@,
                Prompt::Password => "Password"@,
            },
    {
        match self {
            Prompt::Username => "Username/Email",
            Prompt::Password => "Password",
        }
    }
}

impl CredentialArgs {
    /// Takes the user's answer to a prompt. An answer to what the command
    /// line has said already replaces it.
    pub fn answer(self, prompt: Prompt, answer: String) -> (r: Self)
        ensures
            r == match prompt {
                Prompt::Username => CredentialArgs { username: Some(answer), ..self },
                Prompt::Password => CredentialArgs { password: Some(answer), ..self },
            },
    {
        match prompt {
            Prompt::Username => CredentialArgs { username: Some(answer), password: self.password },
            Prompt::Password => CredentialArgs { username: self.username, password: Some(answer) },
        }
    }
}

/// Who logs in.
#[derive(Debug)]
pub struct Credentials {
    pub username: String,
    pub password: String,
}

impl Credentials {
    /// Makes the credentials of what the command line said, or says what
    /// the user has to be asked first.
    ///
    /// The name is asked for before the password, and only what is missing
    /// is asked for. Once both are there, each is taken without the white
    /// space at its two ends.
    pub fn form_args_or_prompt(args: &CredentialArgs) -> (r: Result<Credentials, Prompt>)
        ensures
            match (args.username, args.password) {
                (None, _) => r == Err::<Credentials, Prompt>(Prompt::Username),
                (Some(_), None) => r == Err::<Credentials, Prompt>(Prompt::Password),
                (Some(username), Some(password)) => {
                    &&& r is Ok
                    &&& r->Ok_0.username@ == trimmed(username@)
                    &&& r->Ok_0.password@ == trimmed(password@)
                },
            },
    {
        match &args.username {
            None => Err(Prompt::Username),
            Some(username) => match &args.password {
                None => Err(Prompt::Password),
                Some(password) => Ok(
                    Credentials {
                        username: trim(username.as_str()).to_owned(),
                        password: trim(password.as_str()).to_owned(),
                    },
                ),
            },
        }
    }
}

} // verus!
