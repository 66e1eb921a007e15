# plant-bot

Waters plants through a FRITZ!Box smart plug: it asks Open-Meteo for the
past day's rain and evapotranspiration, works out how many pump cycles the
bed needs, and switches the plug on and off through the FRITZ!Box
AHA-HTTP-Interface.

- `src/` is the verified library (Verus): the login challenge-response
  (PBKDF2 and legacy MD5), the session and switch-command decisions, the
  hourly-forecast lookup, and spans of time.
- `app/` is the program around it: environment, HTTP, XML, the weather
  query, the floating-point water budget, and the loop that carries out the
  schedule.
