//! Agents: the named role participants that tasks refer to.

use vstd::prelude::*;
use crate::errors::CrewAIError;
use crate::errors::ErrorView;

verus! {

/// A named participant with a role and, optionally, a field of expertise.
#[derive(Debug, Clone)]
pub struct Agent {
    pub name: String,
    pub role: String,
    pub expertise: Option<String>,
}

impl Agent {
    /// The error that construction from these strings gives, if any.
    pub open spec fn construction_error(name: Seq<char>, role: Seq<char>) -> Option<ErrorView> {
        if name.len() == 0 {
            Some(ErrorView::MissingField("Agent name cannot be empty"@))
        } else if role.len() == 0 {
            Some(ErrorView::MissingField("Agent role cannot be empty"@))
        } else {
            None
        }
    }

    /// The one-line description of the agent.
    pub open spec fn role_description(self) -> Seq<char> {
        match self.expertise {
            Some(expertise) => "Agent '"@ + self.name@ + "' with role '"@ + self.role@
                + "' and expertise in '"@ + expertise@ + "'"@,
            None => "Agent '"@ + self.name@ + "' with role '"@ + self.role@ + "'"@,
        }
    }

    /// Builds an agent; an empty name or role is rejected, the name first.
    pub fn new(name: String, role: String, expertise: Option<String>) -> (made: Result<
        Agent,
        CrewAIError,
    >)
        ensures
            match made {
                Ok(agent) => {
                    &&& Agent::construction_error(name@, role@) is None
                    &&& agent.name == name
                    &&& agent.role == role
                    &&& agent.expertise == expertise
                },
                Err(e) => Agent::construction_error(name@, role@) == Some(e@),
            },
    {
        if name.as_str().is_empty() {
            return Err(CrewAIError::MissingField(String::from_str("Agent name cannot be empty")));
        }
        if role.as_str().is_empty() {
            return Err(CrewAIError::MissingField(String::from_str("Agent role cannot be empty")));
        }
        Ok(Agent { name, role, expertise })
    }

    /// Describes the agent in one line.
    pub fn describe_role(&self) -> (text: String)
        ensures
            text@ == self.role_description(),
    {
        let mut text = String::from_str("Agent '");
        text.append(self.name.as_str());
        text.append("' with role '");
        text.append(self.role.as_str());
        match &self.expertise {
            Some(expertise) => {
                text.append("' and expertise in '");
                text.append(expertise.as_str());
                text.append("'");
                assert(text@ =~= self.role_description());
            },
            None => {
                text.append("'");
                assert(text@ =~= self.role_description());
            },
        }
        text
    }

    /// Replaces the name unless the new one is empty.
    pub fn set_name(&mut self, name: String) -> (r: Result<(), CrewAIError>)
        ensures
            match r {
                Ok(_) => name@.len() > 0 && *final(self) == (Agent { name, ..*old(self) }),
                Err(e) => {
                    &&& name@.len() == 0
                    &&& e@ == ErrorView::MissingField("Agent name cannot be empty"@)
                    &&& *final(self) == *old(self)
                },
            },
    {
        if name.as_str().is_empty() {
            return Err(CrewAIError::MissingField(String::from_str("Agent name cannot be empty")));
        }
        self.name = name;
        Ok(())
    }

    /// Replaces the role unless the new one is empty.
    pub fn set_role(&mut self, role: String) -> (r: Result<(), CrewAIError>)
        ensures
            match r {
                Ok(_) => role@.len() > 0 && *final(self) == (Agent { role, ..*old(self) }),
                Err(e) => {
                    &&& role@.len() == 0
                    &&& e@ == ErrorView::MissingField("Agent role cannot be empty"@)
                    &&& *final(self) == *old(self)
                },
            },
    {
        if role.as_str().is_empty() {
            return Err(CrewAIError::MissingField(String::from_str("Agent role cannot be empty")));
        }
        self.role = role;
        Ok(())
    }
}

} // verus!
